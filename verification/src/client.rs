//! Logic of the endpoints used by the RustDesk desktop client: login,
//! address book, group pages, presence reports and the values they show.
use vstd::prelude::*;

use crate::auth::{argon2_verifies, verify_password};
use crate::error::AppError;
use crate::text::{
    ascii_lower_seq, chars_of, same_text, contains_chars, has_infix, lower_chars, owned, string_of,
    sub_chars, trim_chars, trim_seq, trim_start_char, trim_start_char_seq,
};

verus! {

/// The message given when the e-mail and password match accounts of more
/// than one client.
pub open spec fn ambiguous_message() -> Seq<char> {
    "email e senha correspondem a mais de um cliente; use credenciais diferentes"@
}

/// The message given when the super admin signs in from the desktop client.
pub open spec fn super_admin_message() -> Seq<char> {
    "use no cliente RustDesk uma conta vinculada a um cliente, não a conta super admin"@
}

/// Roles that receive the shared unattended-access password.
pub open spec fn operating_role(role: Seq<char>) -> bool {
    role == "admin"@ || role == "operator"@
}

/// `can_connect_remotely`: only `admin` and `operator` accounts may operate
/// devices, so only they receive the unattended-access password.
pub fn can_connect_remotely(role: &str) -> (r: bool)
    ensures
        r == operating_role(role@),
{
    same_text(role, "admin") || same_text(role, "operator")
}

/// Roles shown as administrators to the desktop client.
pub open spec fn admin_role(role: Seq<char>) -> bool {
    role == "admin"@ || role == "super_admin"@
}

/// An account as the desktop client shows it.
#[derive(Debug, Clone, PartialEq, Eq)]
pub struct RustdeskUser {
    /// The identifier the client shows: the e-mail.
    pub name: String,
    pub display_name: String,
    pub email: String,
    pub note: String,
    pub status: u8,
    pub is_admin: bool,
}

/// `rustdesk_user`: the account of `email`, `name` and `role` as the
/// desktop client shows it.
pub fn rustdesk_user(email: &str, name: &str, role: &str) -> (u: RustdeskUser)
    ensures
        u.name@ == email@,
        u.display_name@ == name@,
        u.email@ == email@,
        u.note@ == Seq::<char>::empty(),
        u.status == 1,
        u.is_admin == admin_role(role@),
{
    RustdeskUser {
        name: owned(email),
        display_name: owned(name),
        email: owned(email),
        note: String::new(),
        status: 1,
        is_admin: same_text(role, "admin") || same_text(role, "super_admin"),
    }
}

/// `login` (checks on the request): the trimmed user name, when both the
/// user name and the password are given and not empty.
pub fn login_username(username: Option<&str>, password: Option<&str>) -> (r: Result<
    String,
    AppError,
>)
    ensures
        ({
            let user = match username {
                Some(u) => trim_seq(u@),
                None => Seq::<char>::empty(),
            };
            let pass = match password {
                Some(p) => p@,
                None => Seq::<char>::empty(),
            };
            if user.len() == 0 || pass.len() == 0 {
                r == Err::<String, AppError>(AppError::Unauthorized)
            } else {
                r matches Ok(u) && u@ == user
            }
        }),
{
    let user = match username {
        Some(u) => trim_chars(&chars_of(u)),
        None => Vec::new(),
    };
    let pass_len = match password {
        Some(p) => chars_of(p).len(),
        None => 0,
    };
    if user.len() == 0 || pass_len == 0 {
        return Err(AppError::Unauthorized);
    }
    Ok(string_of(&user))
}

/// `login` (choice of the account): of the accounts with the e-mail, in the
/// order they were read, the one whose password matches.  No match is
/// refused as unauthorized; a second match as ambiguous.
pub fn select_account(verified: &[bool]) -> (r: Result<usize, AppError>)
    ensures
        match r {
            Ok(i) => i < verified@.len() && verified@[i as int] && forall|j: int|
                0 <= j < verified@.len() && j != i ==> !verified@[j],
            Err(AppError::Unauthorized) => forall|j: int|
                0 <= j < verified@.len() ==> !verified@[j],
            Err(AppError::BadRequest(m)) => m@ == ambiguous_message() && exists|a: int, b: int|
                0 <= a < b < verified@.len() && verified@[a] && verified@[b],
            Err(_) => false,
        },
{
    let mut found: Option<usize> = None;
    let mut i: usize = 0;
    while i < verified.len()
        invariant
            i <= verified@.len(),
            match found {
                None => forall|j: int| 0 <= j < i ==> !verified@[j],
                Some(f) => f < i && verified@[f as int] && forall|j: int|
                    0 <= j < i && j != f ==> !verified@[j],
            },
        decreases verified@.len() - i,
    {
        if verified[i] {
            match found {
                Some(f) => {
                    return Err(AppError::BadRequest(owned(
                        "email e senha correspondem a mais de um cliente; use credenciais diferentes",
                    )));
                },
                None => {
                    found = Some(i);
                },
            }
        }
        i = i + 1;
    }
    match found {
        Some(f) => Ok(f),
        None => Err(AppError::Unauthorized),
    }
}

/// `login` (choice of the account, with the password): of the accounts
/// with the e-mail, whose stored hashes are `hashes` in the order they were
/// read, the one whose hash verifies the password.  No match is refused as
/// unauthorized; a second match as ambiguous.
pub fn select_login(password: &str, hashes: &[String]) -> (r: Result<usize, AppError>)
    ensures
        match r {
            Ok(i) => i < hashes@.len() && argon2_verifies(password@, hashes@[i as int]@) && forall|j: int|
                0 <= j < hashes@.len() && j != i ==> !argon2_verifies(password@, hashes@[j]@),
            Err(AppError::Unauthorized) => forall|j: int|
                0 <= j < hashes@.len() ==> !argon2_verifies(password@, hashes@[j]@),
            Err(AppError::BadRequest(m)) => m@ == ambiguous_message() && exists|a: int, b: int|
                0 <= a < b < hashes@.len() && argon2_verifies(password@, hashes@[a]@) && argon2_verifies(
                    password@,
                    hashes@[b]@,
                ),
            Err(_) => false,
        },
{
    let mut verified: Vec<bool> = Vec::new();
    let mut i: usize = 0;
    while i < hashes.len()
        invariant
            i <= hashes@.len(),
            verified@.len() == i,
            forall|j: int| 0 <= j < i ==> verified@[j] == argon2_verifies(password@, hashes@[j]@),
        decreases hashes@.len() - i,
    {
        let ok = verify_password(password, hashes[i].as_str());
        verified.push(ok);
        i = i + 1;
    }
    let r = select_account(&verified);
    proof {
        match r {
            Ok(k) => {
                assert forall|j: int| 0 <= j < hashes@.len() && j != k implies !argon2_verifies(
                    password@,
                    hashes@[j]@,
                ) by {
                    assert(!verified@[j]);
                }
            },
            Err(AppError::Unauthorized) => {
                assert forall|j: int| 0 <= j < hashes@.len() implies !argon2_verifies(
                    password@,
                    hashes@[j]@,
                ) by {
                    assert(!verified@[j]);
                }
            },
            Err(AppError::BadRequest(_)) => {
                let (a, b) = choose|a: int, b: int|
                    0 <= a < b < verified@.len() && verified@[a] && verified@[b];
                assert(argon2_verifies(password@, hashes@[a]@) && argon2_verifies(password@, hashes@[b]@));
            },
            Err(_) => {},
        }
    }
    r
}

/// `login` (desktop client): only accounts of a client may sign in there.
pub fn desktop_account_allowed(has_tenant: bool) -> (r: Result<(), AppError>)
    ensures
        has_tenant <==> r is Ok,
        r matches Err(e) ==> (e matches AppError::BadRequest(m) && m@ == super_admin_message()),
{
    if !has_tenant {
        return Err(AppError::BadRequest(owned(
            "use no cliente RustDesk uma conta vinculada a um cliente, não a conta super admin",
        )));
    }
    Ok(())
}

/// `heartbeat` / `sysinfo`: the client whose device reports; the id in the
/// body wins over the one in the query or the path.  Reports without one
/// are ignored.
pub fn report_tenant(body: Option<u128>, query: Option<u128>) -> (r: Option<u128>)
    ensures
        r == (match body {
            Some(t) => Some(t),
            None => query,
        }),
{
    match body {
        Some(t) => Some(t),
        None => query,
    }
}

/// `extract_ip`: the first address of `X-Forwarded-For` (trimmed), else
/// `X-Real-IP`, else the address of the connection.
pub open spec fn first_segment(s: Seq<char>, sep: char) -> Seq<char>
    decreases s.len(),
{
    if s.len() == 0 || s[0] == sep {
        Seq::empty()
    } else {
        seq![s[0]] + first_segment(s.drop_first(), sep)
    }
}

/// The address a report came from.
pub open spec fn client_ip(forwarded: Option<Seq<char>>, real_ip: Option<Seq<char>>, peer: Seq<
    char,
>) -> Seq<char> {
    match forwarded {
        Some(f) => trim_seq(first_segment(f, ',')),
        None => match real_ip {
            Some(r) => r,
            None => peer,
        },
    }
}

proof fn lemma_first_segment(s: Seq<char>, sep: char, i: int)
    requires
        0 <= i <= s.len(),
        forall|k: int| 0 <= k < i ==> s[k] != sep,
        i == s.len() || s[i] == sep,
    ensures
        first_segment(s, sep) == s.take(i),
    decreases s.len(),
{
    if s.len() > 0 && s[0] != sep {
        lemma_first_segment(s.drop_first(), sep, i - 1);
        assert(s.take(i) == seq![s[0]] + s.drop_first().take(i - 1));
    } else {
        assert(s.take(i) == Seq::<char>::empty());
    }
}

/// `extract_ip`: the address a report came from, from the text of the
/// `X-Forwarded-For` and `X-Real-IP` headers (when present and readable)
/// and the address of the connection.
pub fn extract_ip(forwarded: Option<&str>, real_ip: Option<&str>, peer: &str) -> (r: String)
    ensures
        r@ == client_ip(
            match forwarded {
                Some(f) => Some(f@),
                None => None,
            },
            match real_ip {
                Some(x) => Some(x@),
                None => None,
            },
            peer@,
        ),
{
    match forwarded {
        Some(f) => {
            let chars = chars_of(f);
            let mut i: usize = 0;
            while i < chars.len() && chars[i] != ','
                invariant
                    i <= chars@.len(),
                    forall|k: int| 0 <= k < i ==> chars@[k] != ',',
                decreases chars@.len() - i,
            {
                i = i + 1;
            }
            proof {
                lemma_first_segment(chars@, ',', i as int);
                assert(chars@.take(i as int) == chars@.subrange(0, i as int));
            }
            let first = sub_chars(&chars, 0, i);
            string_of(&trim_chars(&first))
        },
        None => match real_ip {
            Some(x) => owned(x),
            None => owned(peer),
        },
    }
}

/// The platform name the client expects for an operating system description.
pub open spec fn platform_of(os: Seq<char>) -> Seq<char> {
    let l = ascii_lower_seq(os);
    if has_infix(l, "windows"@) {
        "Windows"@
    } else if has_infix(l, "mac"@) || has_infix(l, "darwin"@) {
        "Mac OS"@
    } else if has_infix(l, "android"@) {
        "Android"@
    } else if has_infix(l, "ios"@) {
        "iOS"@
    } else if has_infix(l, "linux"@) {
        "Linux"@
    } else {
        ""@
    }
}

/// The platform shown for a system name goes by the words that occur
/// anywhere in its ASCII-lowercased text, in this order of precedence:
/// `windows`, then `mac` or `darwin`, then `android`, then `ios`, then
/// `linux`; a name with none of them shows no platform.
pub proof fn law_platform_by_contained_word(os: Seq<char>)
    ensures
        ({
            let l = ascii_lower_seq(os);
            let windows = exists|i: int| 0 <= i && i + "windows"@.len() <= l.len()
                && #[trigger] l.subrange(i, i + "windows"@.len()) == "windows"@;
            let mac = exists|i: int| 0 <= i && i + "mac"@.len() <= l.len()
                && #[trigger] l.subrange(i, i + "mac"@.len()) == "mac"@;
            let darwin = exists|i: int| 0 <= i && i + "darwin"@.len() <= l.len()
                && #[trigger] l.subrange(i, i + "darwin"@.len()) == "darwin"@;
            let android = exists|i: int| 0 <= i && i + "android"@.len() <= l.len()
                && #[trigger] l.subrange(i, i + "android"@.len()) == "android"@;
            let ios = exists|i: int| 0 <= i && i + "ios"@.len() <= l.len()
                && #[trigger] l.subrange(i, i + "ios"@.len()) == "ios"@;
            let linux = exists|i: int| 0 <= i && i + "linux"@.len() <= l.len()
                && #[trigger] l.subrange(i, i + "linux"@.len()) == "linux"@;
            &&& windows ==> platform_of(os) == "Windows"@
            &&& !windows && (mac || darwin) ==> platform_of(os) == "Mac OS"@
            &&& !windows && !mac && !darwin && android ==> platform_of(os) == "Android"@
            &&& !windows && !mac && !darwin && !android && ios ==> platform_of(os) == "iOS"@
            &&& !windows && !mac && !darwin && !android && !ios && linux ==> platform_of(os) == "Linux"@
            &&& !windows && !mac && !darwin && !android && !ios && !linux ==> platform_of(os).len() == 0
        }),
{
    reveal_strlit("");
}

/// The text of an optional description (none reads as empty).
pub open spec fn opt_text(s: Option<&str>) -> Seq<char> {
    match s {
        Some(t) => t@,
        None => Seq::empty(),
    }
}

/// `rustdesk_platform`: the platform name the address book shows for an
/// operating system description.
pub fn rustdesk_platform(os: Option<&str>) -> (r: &'static str)
    ensures
        r@ == platform_of(opt_text(os)),
{
    let raw = match os {
        Some(s) => chars_of(s),
        None => Vec::new(),
    };
    let l = lower_chars(&raw);
    if contains_chars(&l, &chars_of("windows")) {
        "Windows"
    } else if contains_chars(&l, &chars_of("mac")) || contains_chars(&l, &chars_of("darwin")) {
        "Mac OS"
    } else if contains_chars(&l, &chars_of("android")) {
        "Android"
    } else if contains_chars(&l, &chars_of("ios")) {
        "iOS"
    } else if contains_chars(&l, &chars_of("linux")) {
        "Linux"
    } else {
        ""
    }
}

/// The platform name the group pages show.
pub open spec fn group_platform_of(os: Seq<char>) -> Seq<char> {
    if platform_of(os) == "Mac OS"@ {
        "macOS"@
    } else {
        platform_of(os)
    }
}

/// `group_platform`: as `rustdesk_platform`, but macOS is spelled `macOS`.
pub fn group_platform(os: Option<&str>) -> (r: &'static str)
    ensures
        r@ == group_platform_of(opt_text(os)),
{
    let p = rustdesk_platform(os);
    if same_text(p, "Mac OS") {
        "macOS"
    } else {
        p
    }
}

/// The value of a hexadecimal digit, or -1 for any other character.
pub open spec fn hex_val(c: char) -> int {
    if '0' <= c && c <= '9' {
        c as int - 48
    } else if 'a' <= c && c <= 'f' {
        c as int - 87
    } else if 'A' <= c && c <= 'F' {
        c as int - 55
    } else {
        -1
    }
}

/// The number written by hexadecimal digits.
pub open spec fn hex_number(s: Seq<char>) -> int
    decreases s.len(),
{
    if s.len() == 0 {
        0
    } else {
        16 * hex_number(s.drop_last()) + hex_val(s.last())
    }
}

/// The digits of a number text: what follows an optional leading `+`.
pub open spec fn hex_digits(s: Seq<char>) -> Seq<char> {
    if s.len() > 0 && s[0] == '+' {
        s.drop_first()
    } else {
        s
    }
}

/// What `u32::from_str_radix(s, 16)` gives: an optional `+`, then at least
/// one hexadecimal digit and nothing else, of a value that fits in `u32`.
pub open spec fn parse_hex(s: Seq<char>) -> Option<u32> {
    let digits = hex_digits(s);
    if digits.len() == 0 || exists|i: int| 0 <= i < digits.len() && hex_val(#[trigger] digits[i]) < 0 {
        None
    } else if hex_number(digits) > u32::MAX {
        None
    } else {
        Some(hex_number(digits) as u32)
    }
}

/// The colour used when a tag colour cannot be read (`#3b82f6`, opaque).
pub const DEFAULT_COLOR: u32 = 0xFF3B_82F6;

/// The colour used for branch tags (`#64748b`, opaque).
pub const BRANCH_COLOR: u32 = 0xFF64_748B;

/// The ARGB colour the client draws for a CSS colour `#rrggbb` (made
/// opaque) or `#aarrggbb`; anything else reads as the default blue.
pub open spec fn flutter_color_of(color: Seq<char>) -> u32 {
    let hex = trim_start_char_seq(trim_seq(color), '#');
    if hex.len() == 6 {
        match parse_hex(hex) {
            Some(v) => (0xFF00_0000 + v) as u32,
            None => DEFAULT_COLOR,
        }
    } else if hex.len() == 8 {
        match parse_hex(hex) {
            Some(v) => v,
            None => DEFAULT_COLOR,
        }
    } else {
        DEFAULT_COLOR
    }
}

proof fn lemma_hex_number_bound(s: Seq<char>)
    requires
        forall|i: int| 0 <= i < s.len() ==> 0 <= hex_val(#[trigger] s[i]) < 16,
    ensures
        0 <= hex_number(s) < vstd::arithmetic::power2::pow2(4 * s.len()),
    decreases s.len(),
{
    if s.len() > 0 {
        assert forall|i: int| 0 <= i < s.drop_last().len() implies 0 <= hex_val(
            #[trigger] s.drop_last()[i],
        ) < 16 by {
            assert(s.drop_last()[i] == s[i]);
        }
        lemma_hex_number_bound(s.drop_last());
        assert(0 <= hex_val(s.last()) < 16);
        vstd::arithmetic::power2::lemma_pow2_adds(4 * (s.len() - 1) as nat, 4);
        vstd::arithmetic::power2::lemma2_to64();
        assert(4 * (s.len() - 1) as nat + 4 == 4 * s.len());
    } else {
        vstd::arithmetic::power2::lemma2_to64();
    }
}

/// The value of one hexadecimal digit.
fn hex_digit(c: char) -> (r: i64)
    ensures
        r == hex_val(c),
{
    if '0' <= c && c <= '9' {
        (c as u32) as i64 - 48
    } else if 'a' <= c && c <= 'f' {
        (c as u32) as i64 - 87
    } else if 'A' <= c && c <= 'F' {
        (c as u32) as i64 - 55
    } else {
        -1
    }
}

/// `u32::from_str_radix(s, 16)` for texts of at most eight characters.
fn parse_hex_short(s: &[char]) -> (r: Option<u32>)
    requires
        s@.len() <= 8,
    ensures
        r == parse_hex(s@),
{
    let start: usize = if s.len() > 0 && s[0] == '+' {
        1
    } else {
        0
    };
    let ghost digits = hex_digits(s@);
    proof {
        assert(digits == s@.skip(start as int));
    }
    if start == s.len() {
        assert(digits.len() == 0);
        return None;
    }
    proof {
        vstd::arithmetic::power2::lemma2_to64();
    }
    let mut value: u64 = 0;
    let mut i: usize = start;
    while i < s.len()
        invariant
            start <= i <= s@.len() <= 8,
            start < s@.len(),
            digits == s@.skip(start as int),
            digits == hex_digits(s@),
            forall|k: int| 0 <= k < i - start ==> 0 <= hex_val(#[trigger] digits[k]) < 16,
            value == hex_number(digits.take(i - start)),
            value < vstd::arithmetic::power2::pow2(4 * (i - start) as nat),
        decreases s@.len() - i,
    {
        let d = hex_digit(s[i]);
        if d < 0 {
            proof {
                assert(digits[i - start] == s@[i as int]);
                assert(hex_val(digits[(i - start) as int]) < 0);
            }
            return None;
        }
        proof {
            assert(digits[i - start] == s@[i as int]);
            assert(digits.take(i + 1 - start).drop_last() == digits.take(i - start));
            assert(digits.take(i + 1 - start).last() == s@[i as int]);
            vstd::arithmetic::power2::lemma2_to64();
            vstd::arithmetic::power2::lemma_pow2_adds(4 * (i - start) as nat, 4);
            assert(4 * (i - start) as nat + 4 == 4 * (i + 1 - start) as nat);
            assert(4 * (i - start) <= 28);
            vstd::arithmetic::power2::lemma_pow2_strictly_increases(
                4 * (i - start) as nat,
                32,
            );
        }
        value = 16 * value + d as u64;
        i = i + 1;
    }
    proof {
        assert(digits.take(s@.len() - start) == digits);
    }
    if value > 0xFFFF_FFFF {
        return None;
    }
    Some(value as u32)
}

/// `flutter_color`: the ARGB colour the client draws for a tag colour.
pub fn flutter_color(color: &str) -> (r: u32)
    ensures
        r == flutter_color_of(color@),
{
    let trimmed = trim_chars(&chars_of(color));
    let hex = trim_start_char(&trimmed, '#');
    if hex.len() == 6 {
        match parse_hex_short(&hex) {
            Some(rgb) => {
                proof {
                    lemma_hex_six(hex@);
                }
                assert(rgb <= 0xFF_FFFF);
                assert(0xFF00_0000u32 | rgb == 0xFF00_0000u32 + rgb) by (bit_vector)
                    requires
                        rgb <= 0xFF_FFFF,
                ;
                0xFF00_0000 | rgb
            },
            None => DEFAULT_COLOR,
        }
    } else if hex.len() == 8 {
        match parse_hex_short(&hex) {
            Some(argb) => argb,
            None => DEFAULT_COLOR,
        }
    } else {
        DEFAULT_COLOR
    }
}

/// Six characters read as hexadecimal give at most `0xFFFFFF`.
proof fn lemma_hex_six(hex: Seq<char>)
    requires
        hex.len() == 6,
        parse_hex(hex) is Some,
    ensures
        parse_hex(hex)->0 <= 0xFF_FFFF,
{
    let digits = hex_digits(hex);
    assert(!(digits.len() == 0 || exists|k: int|
        0 <= k < digits.len() && hex_val(#[trigger] digits[k]) < 0));
    assert forall|i: int| 0 <= i < digits.len() implies 0 <= hex_val(#[trigger] digits[i]) < 16 by {
        let c = digits[i];
        assert(hex_val(c) < 16);
        if hex_val(c) < 0 {
            assert(exists|k: int| 0 <= k < digits.len() && hex_val(#[trigger] digits[k]) < 0);
        }
    }
    lemma_hex_number_bound(digits);
    vstd::arithmetic::power2::lemma2_to64();
    if digits.len() == 5 {
        assert(vstd::arithmetic::power2::pow2(20) == 0x100000);
    } else {
        assert(digits.len() == 6);
        assert(vstd::arithmetic::power2::pow2(24) == 0x1000000);
    }
}

/// The page of a group list that a request asks for.
#[derive(Debug, Clone, Copy, PartialEq, Eq)]
pub struct GroupPage {
    /// Page number, from 1.
    pub current: Option<i64>,
    /// Entries per page.
    pub page_size: Option<i64>,
}

/// `v` brought into `lo..=hi`.
pub open spec fn clamp_spec(v: int, lo: int, hi: int) -> int {
    if v < lo {
        lo
    } else if v > hi {
        hi
    } else {
        v
    }
}

/// Entries per page: 100 when not given, never below 1 nor above 500.
pub open spec fn page_limit(page_size: Option<i64>) -> int {
    clamp_spec(
        match page_size {
            Some(v) => v as int,
            None => 100,
        },
        1,
        500,
    )
}

/// The page number: 1 when not given, never below 1.
pub open spec fn page_number(current: Option<i64>) -> int {
    let c = match current {
        Some(v) => v as int,
        None => 1,
    };
    if c < 1 {
        1
    } else {
        c
    }
}

impl GroupPage {
    /// The offset of the page fits in `i64`.
    pub open spec fn offset_fits(&self) -> bool {
        (page_number(self.current) - 1) * page_limit(self.page_size) <= i64::MAX
    }

    /// Whether the page's offset fits in `i64` (so `limit_offset` can be asked).
    pub fn offset_in_range(&self) -> (r: bool)
        ensures
            r == self.offset_fits(),
    {
        let size = match self.page_size {
            Some(v) => v,
            None => 100,
        };
        let limit: i128 = if size < 1 {
            1
        } else if size > 500 {
            500
        } else {
            size as i128
        };
        let asked = match self.current {
            Some(v) => v,
            None => 1,
        };
        let skipped: i128 = if asked < 1 {
            0
        } else {
            asked as i128 - 1
        };
        assert(0 <= skipped * limit <= 0x7fff_ffff_ffff_ffff * 500) by (nonlinear_arith)
            requires
                0 <= skipped <= 0x7fff_ffff_ffff_ffff,
                1 <= limit <= 500,
        ;
        skipped * limit <= 0x7fff_ffff_ffff_ffff
    }

    /// `limit_offset`: how many entries to return and how many to skip.
    pub fn limit_offset(&self) -> (r: (i64, i64))
        requires
            self.offset_fits(),
        ensures
            r.0 == page_limit(self.page_size),
            r.1 == (page_number(self.current) - 1) * page_limit(self.page_size),
    {
        let size = match self.page_size {
            Some(v) => v,
            None => 100,
        };
        let limit: i64 = if size < 1 {
            1
        } else if size > 500 {
            500
        } else {
            size
        };
        let asked = match self.current {
            Some(v) => v,
            None => 1,
        };
        let current: i64 = if asked < 1 {
            1
        } else {
            asked
        };
        (limit, (current - 1) * limit)
    }
}

} // verus!
