//! The catalog that the desktop client reads: the address book (`/api/ab`)
//! and the peers of the group pages (`/api/peers`), built from the device
//! and tag rows of one client.
use vstd::prelude::*;

use crate::client::{can_connect_remotely, flutter_color, flutter_color_of, group_platform,
    group_platform_of, operating_role, platform_of, rustdesk_platform, BRANCH_COLOR};
use crate::ordered::{lists_map, upsert};
use crate::text::{blank, chars_of, is_blank, is_white, owned, push_text, same_chars};

verus! {

/// A device of the client as the catalog reads it.
#[derive(Debug, Clone, PartialEq, Eq)]
pub struct CatalogDevice {
    /// The device's key.
    pub id: u128,
    pub rustdesk_id: String,
    pub hostname: Option<String>,
    pub os: Option<String>,
    pub alias: Option<String>,
    pub description: Option<String>,
    /// The name of the device's branch, if it has one.
    pub branch_name: Option<String>,
}

/// A tag put on a device.
#[derive(Debug, Clone, PartialEq, Eq)]
pub struct CatalogTag {
    pub device_id: u128,
    pub name: String,
    /// The CSS colour of the tag.
    pub color: String,
}

/// A peer of the address book.
#[derive(Debug, Clone, PartialEq, Eq)]
pub struct CatalogPeer {
    pub id: String,
    /// The unattended-access password, or empty.
    pub password: String,
    pub hostname: String,
    pub platform: String,
    pub alias: String,
    pub tags: Vec<String>,
    pub note: String,
    pub same_server: bool,
}

/// The address book: its peers, the names of all their tags (sorted, each
/// once) and the colour of each tag (sorted by name).
#[derive(Debug, Clone, PartialEq, Eq)]
pub struct AddressBook {
    pub peers: Vec<CatalogPeer>,
    pub tags: Vec<String>,
    pub tag_colors: Vec<(String, u32)>,
}

/// The text of an optional value, empty when there is none.
pub open spec fn or_empty(s: Option<String>) -> Seq<char> {
    match s {
        Some(t) => t@,
        None => Seq::empty(),
    }
}

/// The tag that stands for the device's branch: `Filial: <name>`, when the
/// name is not blank.
pub open spec fn branch_tag(d: CatalogDevice) -> Option<Seq<char>> {
    match d.branch_name {
        Some(b) => if is_blank(b@) {
            None
        } else {
            Some("Filial: "@ + b@)
        },
        None => None,
    }
}

/// The names of the tags that `rows` put on device `id`, in row order.
pub open spec fn row_tags(rows: Seq<CatalogTag>, id: u128) -> Seq<Seq<char>>
    decreases rows.len(),
{
    if rows.len() == 0 {
        Seq::empty()
    } else {
        let before = row_tags(rows.drop_last(), id);
        if rows.last().device_id == id {
            before.push(rows.last().name@)
        } else {
            before
        }
    }
}

/// The tags of the `k`-th device before its branch tag: those of its rows,
/// unless an earlier device row with the same key already took them.
pub open spec fn own_tags(devices: Seq<CatalogDevice>, rows: Seq<CatalogTag>, k: int) -> Seq<
    Seq<char>,
> {
    if exists|j: int| 0 <= j < k && devices[j].id == devices[k].id {
        Seq::empty()
    } else {
        row_tags(rows, devices[k].id)
    }
}

/// The tags shown on the `k`-th device: its own tags, then its branch tag
/// if not already among them.
pub open spec fn peer_tags(devices: Seq<CatalogDevice>, rows: Seq<CatalogTag>, k: int) -> Seq<
    Seq<char>,
> {
    let own = own_tags(devices, rows, k);
    match branch_tag(devices[k]) {
        Some(b) => if own.contains(b) {
            own
        } else {
            own.push(b)
        },
        None => own,
    }
}

/// The name shown for a device: its alias when not blank, else its host name.
pub open spec fn shown_alias(alias: Option<String>, hostname: Option<String>) -> Seq<char> {
    match alias {
        Some(a) => if is_blank(a@) {
            or_empty(hostname)
        } else {
            a@
        },
        None => or_empty(hostname),
    }
}

/// The password the address book carries for a role: the client's
/// unattended-access password for operating roles, nothing for the others.
pub open spec fn shared_password(role: Seq<char>, tenant_password: Option<String>) -> Seq<char> {
    if operating_role(role) {
        or_empty(tenant_password)
    } else {
        Seq::empty()
    }
}

/// `p` is the address-book peer of device `d` with `tags` and `password`.
pub open spec fn is_catalog_peer(p: CatalogPeer, d: CatalogDevice, tags: Seq<Seq<char>>, password: Seq<
    char,
>) -> bool {
    &&& p.id@ == d.rustdesk_id@
    &&& p.password@ == password
    &&& p.hostname@ == or_empty(d.hostname)
    &&& p.platform@ == platform_of(or_empty(d.os))
    &&& p.alias@ == shown_alias(d.alias, d.hostname)
    &&& p.tags@.map_values(|t: String| t@) == tags
    &&& p.note@ == or_empty(d.description)
    &&& p.same_server
}

/// Tag colours after the rows: each row sets its tag's colour (a later row
/// of the same name wins).
pub open spec fn row_colors(rows: Seq<CatalogTag>) -> Map<Seq<char>, u32>
    decreases rows.len(),
{
    if rows.len() == 0 {
        Map::empty()
    } else {
        row_colors(rows.drop_last()).insert(rows.last().name@, flutter_color_of(rows.last().color@))
    }
}

/// Tag colours after the branch tags of `devices` are added to `m`; a
/// branch tag keeps a colour it already has.
pub open spec fn branch_colors(m: Map<Seq<char>, u32>, devices: Seq<CatalogDevice>) -> Map<
    Seq<char>,
    u32,
>
    decreases devices.len(),
{
    if devices.len() == 0 {
        m
    } else {
        let before = branch_colors(m, devices.drop_last());
        match branch_tag(devices.last()) {
            Some(b) => if before.contains_key(b) {
                before
            } else {
                before.insert(b, BRANCH_COLOR)
            },
            None => before,
        }
    }
}

/// The colour of every tag of the address book.
pub open spec fn catalog_colors(devices: Seq<CatalogDevice>, rows: Seq<CatalogTag>) -> Map<
    Seq<char>,
    u32,
> {
    branch_colors(row_colors(rows), devices)
}

fn opt_text(s: &Option<String>) -> (r: String)
    ensures
        r@ == or_empty(*s),
{
    match s {
        Some(t) => t.clone(),
        None => String::new(),
    }
}

fn branch_tag_text(d: &CatalogDevice) -> (r: Option<String>)
    ensures
        match branch_tag(*d) {
            Some(b) => r matches Some(t) && t@ == b,
            None => r is None,
        },
{
    match &d.branch_name {
        Some(b) => {
            if blank(&chars_of(b.as_str())) {
                None
            } else {
                let mut t = owned("Filial: ");
                push_text(&mut t, b.as_str());
                Some(t)
            }
        },
        None => None,
    }
}

fn tags_of_rows(rows: &[CatalogTag], id: u128) -> (r: Vec<String>)
    ensures
        r@.map_values(|t: String| t@) == row_tags(rows@, id),
{
    let mut r: Vec<String> = Vec::new();
    let mut i: usize = 0;
    while i < rows.len()
        invariant
            i <= rows@.len(),
            r@.map_values(|t: String| t@) == row_tags(rows@.take(i as int), id),
        decreases rows@.len() - i,
    {
        proof {
            assert(rows@.take(i + 1).drop_last() == rows@.take(i as int));
            assert(rows@.take(i + 1).last() == rows@[i as int]);
        }
        if rows[i].device_id == id {
            let ghost before = r@;
            r.push(rows[i].name.clone());
            assert(r@.map_values(|t: String| t@) == before.map_values(|t: String| t@).push(
                rows@[i as int].name@,
            ));
        }
        i = i + 1;
    }
    assert(rows@.take(rows@.len() as int) == rows@);
    r
}

fn seen_before(devices: &[CatalogDevice], k: usize) -> (r: bool)
    requires
        k < devices@.len(),
    ensures
        r == exists|j: int| 0 <= j < k && devices@[j].id == devices@[k as int].id,
{
    let mut j: usize = 0;
    while j < k
        invariant
            j <= k < devices@.len(),
            forall|m: int| 0 <= m < j ==> devices@[m].id != devices@[k as int].id,
        decreases k - j,
    {
        if devices[j].id == devices[k].id {
            return true;
        }
        j = j + 1;
    }
    false
}

fn contains_text(list: &Vec<String>, t: &String) -> (r: bool)
    ensures
        r == list@.map_values(|s: String| s@).contains(t@),
{
    let ghost views = list@.map_values(|s: String| s@);
    let tc = chars_of(t.as_str());
    let mut i: usize = 0;
    while i < list.len()
        invariant
            i <= list@.len(),
            tc@ == t@,
            views == list@.map_values(|s: String| s@),
            forall|m: int| 0 <= m < i ==> views[m] != t@,
        decreases list@.len() - i,
    {
        if same_chars(&chars_of(list[i].as_str()), &tc) {
            assert(views[i as int] == t@);
            return true;
        }
        i = i + 1;
    }
    false
}

/// `ab_get`: the address book of a client for an account of `role`.
/// `tenant_password` is the client's unattended-access password, read only
/// for roles that may receive it.
pub fn address_book(
    devices: &[CatalogDevice],
    rows: &[CatalogTag],
    role: &str,
    tenant_password: Option<String>,
) -> (book: AddressBook)
    ensures
        book.peers@.len() == devices@.len(),
        forall|k: int|
            0 <= k < devices@.len() ==> is_catalog_peer(
                #[trigger] book.peers@[k],
                devices@[k],
                peer_tags(devices@, rows@, k),
                shared_password(role@, tenant_password),
            ),
        lists_map(book.tag_colors@, catalog_colors(devices@, rows@)),
        book.tags@.map_values(|t: String| t@) == book.tag_colors@.map_values(
            |p: (String, u32)| p.0@,
        ),
{
    let password = if can_connect_remotely(role) {
        opt_text(&tenant_password)
    } else {
        String::new()
    };
    let mut colors: Vec<(String, u32)> = Vec::new();
    let mut i: usize = 0;
    while i < rows.len()
        invariant
            i <= rows@.len(),
            lists_map(colors@, row_colors(rows@.take(i as int))),
        decreases rows@.len() - i,
    {
        proof {
            assert(rows@.take(i + 1).drop_last() == rows@.take(i as int));
            assert(rows@.take(i + 1).last() == rows@[i as int]);
        }
        let c = flutter_color(rows[i].color.as_str());
        upsert(&mut colors, rows[i].name.clone(), c, true, Ghost(row_colors(rows@.take(i as int))));
        i = i + 1;
    }
    proof {
        assert(rows@.take(rows@.len() as int) == rows@);
    }
    let ghost base = row_colors(rows@);
    let mut peers: Vec<CatalogPeer> = Vec::new();
    let mut k: usize = 0;
    while k < devices.len()
        invariant
            k <= devices@.len(),
            base == row_colors(rows@),
            password@ == shared_password(role@, tenant_password),
            lists_map(colors@, branch_colors(base, devices@.take(k as int))),
            peers@.len() == k,
            forall|m: int|
                0 <= m < k ==> is_catalog_peer(
                    #[trigger] peers@[m],
                    devices@[m],
                    peer_tags(devices@, rows@, m),
                    password@,
                ),
        decreases devices@.len() - k,
    {
        let d = &devices[k];
        let mut tags = if seen_before(devices, k) {
            Vec::new()
        } else {
            tags_of_rows(rows, d.id)
        };
        let ghost own = tags@.map_values(|t: String| t@);
        proof {
            assert(own == own_tags(devices@, rows@, k as int));
            assert(devices@.take(k + 1).drop_last() == devices@.take(k as int));
            assert(devices@.take(k + 1).last() == devices@[k as int]);
        }
        match branch_tag_text(d) {
            Some(b) => {
                if !contains_text(&tags, &b) {
                    let ghost before = tags@;
                    tags.push(b.clone());
                    assert(tags@.map_values(|t: String| t@) == before.map_values(|t: String| t@).push(
                        b@,
                    ));
                }
                let ghost m = branch_colors(base, devices@.take(k as int));
                upsert(&mut colors, b, BRANCH_COLOR, false, Ghost(m));
            },
            None => {},
        }
        let alias = match &d.alias {
            Some(a) => if blank(&chars_of(a.as_str())) {
                opt_text(&d.hostname)
            } else {
                a.clone()
            },
            None => opt_text(&d.hostname),
        };
        let peer = CatalogPeer {
            id: d.rustdesk_id.clone(),
            password: password.clone(),
            hostname: opt_text(&d.hostname),
            platform: owned(
                rustdesk_platform(
                    match &d.os {
                        Some(o) => Some(o.as_str()),
                        None => None,
                    },
                ),
            ),
            alias,
            tags,
            note: opt_text(&d.description),
            same_server: true,
        };
        proof {
            assert(peer.tags@.map_values(|t: String| t@) == peer_tags(devices@, rows@, k as int));
            assert(is_catalog_peer(peer, devices@[k as int], peer_tags(devices@, rows@, k as int), password@));
        }
        let ghost old_peers = peers@;
        peers.push(peer);
        proof {
            assert forall|m: int| 0 <= m < k + 1 implies is_catalog_peer(
                #[trigger] peers@[m],
                devices@[m],
                peer_tags(devices@, rows@, m),
                password@,
            ) by {
                if m < k {
                    assert(peers@[m] == old_peers[m]);
                }
            }
        }
        k = k + 1;
    }
    proof {
        assert(devices@.take(devices@.len() as int) == devices@);
    }
    let mut names: Vec<String> = Vec::new();
    let mut j: usize = 0;
    while j < colors.len()
        invariant
            j <= colors@.len(),
            names@.map_values(|t: String| t@) == colors@.take(j as int).map_values(
                |p: (String, u32)| p.0@,
            ),
        decreases colors@.len() - j,
    {
        let ghost before = names@;
        names.push(colors[j].0.clone());
        proof {
            assert(colors@.take(j + 1) == colors@.take(j as int).push(colors@[j as int]));
            assert(names@.map_values(|t: String| t@) == before.map_values(|t: String| t@).push(
                colors@[j as int].0@,
            ));
        }
        j = j + 1;
    }
    assert(colors@.take(colors@.len() as int) == colors@);
    AddressBook { peers, tags: names, tag_colors: colors }
}

/// A device as the group pages read it.
#[derive(Debug, Clone, PartialEq, Eq)]
pub struct GroupDevice {
    pub rustdesk_id: String,
    pub hostname: Option<String>,
    pub os: Option<String>,
    pub alias: Option<String>,
    pub description: Option<String>,
    /// The stored presence state.
    pub online: bool,
    pub branch_name: Option<String>,
    pub owner_email: Option<String>,
    pub owner_name: Option<String>,
}

/// A peer of the group pages.
#[derive(Debug, Clone, PartialEq, Eq)]
pub struct GroupPeer {
    pub id: String,
    pub device_name: String,
    pub os: String,
    pub username: String,
    /// 1 online, 0 offline.
    pub status: u8,
    pub user: String,
    pub user_name: String,
    pub device_group_name: String,
    pub note: String,
}

/// Whether the `k`-th device is shown online: the state hbbs reported for
/// it when there is one, else the stored state.
pub open spec fn shown_online(live: Option<Seq<bool>>, k: int, stored: bool) -> bool {
    match live {
        Some(states) => if 0 <= k < states.len() {
            states[k]
        } else {
            stored
        },
        None => stored,
    }
}

/// The states reported by hbbs, if any.
pub open spec fn live_view(live: Option<Vec<bool>>) -> Option<Seq<bool>> {
    match live {
        Some(v) => Some(v@),
        None => None,
    }
}

/// `p` is the group-page peer of device `d`, shown online or not.
pub open spec fn is_group_peer(p: GroupPeer, d: GroupDevice, online: bool) -> bool {
    &&& p.id@ == d.rustdesk_id@
    &&& p.device_name@ == shown_alias(d.alias, d.hostname)
    &&& p.os@ == group_platform_of(or_empty(d.os))
    &&& p.username@ == Seq::<char>::empty()
    &&& p.status == (if online {
        1u8
    } else {
        0u8
    })
    &&& p.user@ == or_empty(d.owner_email)
    &&& p.user_name@ == or_empty(d.owner_name)
    &&& p.device_group_name@ == or_empty(d.branch_name)
    &&& p.note@ == or_empty(d.description)
}

/// `group_peers`: the peers of a group page, given the states that hbbs
/// reported for them (`None` when it was not asked or did not answer).
pub fn group_peers(rows: &[GroupDevice], live: Option<Vec<bool>>) -> (r: Vec<GroupPeer>)
    ensures
        r@.len() == rows@.len(),
        forall|k: int|
            0 <= k < rows@.len() ==> is_group_peer(
                #[trigger] r@[k],
                rows@[k],
                shown_online(live_view(live), k, rows@[k].online),
            ),
        forall|k: int|
            0 <= k < rows@.len() ==> (#[trigger] r@[k]).device_name@ == match rows@[k].alias {
                Some(a) => if is_blank(a@) {
                    match rows@[k].hostname {
                        Some(h) => h@,
                        None => Seq::<char>::empty(),
                    }
                } else {
                    a@
                },
                None => match rows@[k].hostname {
                    Some(h) => h@,
                    None => Seq::<char>::empty(),
                },
            },
{
    let ghost states = live_view(live);
    let mut r: Vec<GroupPeer> = Vec::new();
    let mut k: usize = 0;
    while k < rows.len()
        invariant
            k <= rows@.len(),
            states == live_view(live),
            r@.len() == k,
            forall|m: int|
                0 <= m < k ==> is_group_peer(
                    #[trigger] r@[m],
                    rows@[m],
                    shown_online(states, m, rows@[m].online),
                ),
        decreases rows@.len() - k,
    {
        let d = &rows[k];
        let online = match &live {
            Some(v) => if k < v.len() {
                v[k]
            } else {
                d.online
            },
            None => d.online,
        };
        let device_name = match &d.alias {
            Some(a) => if blank(&chars_of(a.as_str())) {
                opt_text(&d.hostname)
            } else {
                a.clone()
            },
            None => opt_text(&d.hostname),
        };
        let peer = GroupPeer {
            id: d.rustdesk_id.clone(),
            device_name,
            os: owned(
                group_platform(
                    match &d.os {
                        Some(o) => Some(o.as_str()),
                        None => None,
                    },
                ),
            ),
            username: String::new(),
            status: if online {
                1
            } else {
                0
            },
            user: opt_text(&d.owner_email),
            user_name: opt_text(&d.owner_name),
            device_group_name: opt_text(&d.branch_name),
            note: opt_text(&d.description),
        };
        let ghost old_r = r@;
        r.push(peer);
        proof {
            assert forall|m: int| 0 <= m < k + 1 implies is_group_peer(
                #[trigger] r@[m],
                rows@[m],
                shown_online(states, m, rows@[m].online),
            ) by {
                if m < k {
                    assert(r@[m] == old_r[m]);
                }
            }
        }
        k = k + 1;
    }
    proof {
        assert forall|k: int| 0 <= k < rows@.len() implies (#[trigger] r@[k]).device_name@ == match rows@[k].alias {
            Some(a) => if is_blank(a@) {
                match rows@[k].hostname {
                    Some(h) => h@,
                    None => Seq::<char>::empty(),
                }
            } else {
                a@
            },
            None => match rows@[k].hostname {
                Some(h) => h@,
                None => Seq::<char>::empty(),
            },
        } by {
            law_group_peer_name(r@[k], rows@[k], shown_online(states, k, rows@[k].online));
        }
    }
    r
}

/// The name a group page shows for a device is its alias when the alias
/// has a character other than whitespace, whatever the host name; without
/// such an alias it is the host name (empty without one).
pub proof fn law_group_peer_name(p: GroupPeer, d: GroupDevice, online: bool)
    requires
        is_group_peer(p, d, online),
    ensures
        p.device_name@ == match d.alias {
            Some(a) => if exists|i: int| 0 <= i < a@.len() && !is_white(#[trigger] a@[i]) {
                a@
            } else {
                match d.hostname {
                    Some(h) => h@,
                    None => Seq::<char>::empty(),
                }
            },
            None => match d.hostname {
                Some(h) => h@,
                None => Seq::<char>::empty(),
            },
        },
{
}

/// Only the roles that operate devices receive the unattended-access
/// password: `admin` and `operator` get the client's password (empty when
/// it could not be read); every other role, `viewer` and `super_admin`
/// among them, gets an empty one.
pub proof fn law_password_only_for_operating_roles(role: Seq<char>, tenant_password: Option<String>)
    ensures
        (role == "admin"@ || role == "operator"@) ==> shared_password(role, tenant_password)
            == or_empty(tenant_password),
        !(role == "admin"@ || role == "operator"@) ==> shared_password(role, tenant_password)
            == Seq::<char>::empty(),
{
}

} // verus!
