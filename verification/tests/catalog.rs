use plus_api::catalog::{address_book, group_peers, CatalogDevice, CatalogTag, GroupDevice};

fn device(id: u128, rustdesk: &str, branch: Option<&str>) -> CatalogDevice {
    CatalogDevice {
        id,
        rustdesk_id: rustdesk.to_string(),
        hostname: Some(format!("host-{rustdesk}")),
        os: Some("Windows 11".to_string()),
        alias: None,
        description: Some("note".to_string()),
        branch_name: branch.map(|b| b.to_string()),
    }
}

fn tag(device_id: u128, name: &str, color: &str) -> CatalogTag {
    CatalogTag { device_id, name: name.to_string(), color: color.to_string() }
}

#[test]
fn address_book_lists_peers_with_tags_and_branch() {
    let devices = vec![device(1, "111", Some("Centro")), device(2, "222", Some("  "))];
    let tags = vec![tag(1, "zeta", "#ff0000"), tag(2, "alpha", "#00ff00"), tag(1, "alpha", "#00ff00")];
    let book = address_book(&devices, &tags, "operator", Some("SECRET12".to_string()));
    assert_eq!(book.peers.len(), 2);
    let p = &book.peers[0];
    assert_eq!(p.id, "111");
    assert_eq!(p.password, "SECRET12");
    assert_eq!(p.hostname, "host-111");
    assert_eq!(p.platform, "Windows");
    assert_eq!(p.alias, "host-111");
    assert_eq!(p.tags, vec!["zeta", "alpha", "Filial: Centro"]);
    assert_eq!(p.note, "note");
    assert!(p.same_server);
    assert_eq!(book.peers[1].tags, vec!["alpha"]);
    assert_eq!(book.tags, vec!["Filial: Centro", "alpha", "zeta"]);
    assert_eq!(
        book.tag_colors,
        vec![
            ("Filial: Centro".to_string(), 0xFF64748B),
            ("alpha".to_string(), 0xFF00FF00),
            ("zeta".to_string(), 0xFFFF0000),
        ]
    );
}

#[test]
fn viewers_get_the_catalog_without_password() {
    let devices = vec![device(1, "111", None)];
    let viewer = address_book(&devices, &[], "viewer", Some("SECRET12".to_string()));
    assert_eq!(viewer.peers[0].password, "");
    let admin = address_book(&devices, &[], "super_admin", Some("SECRET12".to_string()));
    assert_eq!(admin.peers[0].password, "");
    let admin = address_book(&devices, &[], "admin", None);
    assert_eq!(admin.peers[0].password, "");
}

#[test]
fn later_tag_rows_set_the_color_and_branch_tags_keep_theirs() {
    let devices = vec![device(1, "111", Some("Sul"))];
    let tags = vec![tag(1, "x", "#000001"), tag(1, "x", "#000002"), tag(1, "Filial: Sul", "#123456")];
    let book = address_book(&devices, &tags, "admin", Some("P".to_string()));
    assert_eq!(book.peers[0].tags, vec!["x", "x", "Filial: Sul"]);
    assert_eq!(
        book.tag_colors,
        vec![("Filial: Sul".to_string(), 0xFF123456), ("x".to_string(), 0xFF000002)]
    );
}

#[test]
fn alias_falls_back_to_host_name() {
    let mut d = device(1, "111", None);
    d.alias = Some("Caixa 1".to_string());
    let mut e = device(2, "222", None);
    e.alias = Some("   ".to_string());
    e.hostname = None;
    let book = address_book(&[d, e], &[], "admin", None);
    assert_eq!(book.peers[0].alias, "Caixa 1");
    assert_eq!(book.peers[1].alias, "");
    assert_eq!(book.peers[1].hostname, "");
}

fn group_device(id: &str, online: bool) -> GroupDevice {
    GroupDevice {
        rustdesk_id: id.to_string(),
        hostname: Some("pc".to_string()),
        os: Some("Darwin".to_string()),
        alias: None,
        description: None,
        online,
        branch_name: Some("Centro".to_string()),
        owner_email: None,
        owner_name: Some("Ana".to_string()),
    }
}

#[test]
fn group_peers_prefer_live_presence() {
    let rows = vec![group_device("1", false), group_device("2", true), group_device("3", true)];
    let live = group_peers(&rows, Some(vec![true, false]));
    assert_eq!(live.iter().map(|p| p.status).collect::<Vec<_>>(), vec![1, 0, 1]);
    let stored = group_peers(&rows, None);
    assert_eq!(stored.iter().map(|p| p.status).collect::<Vec<_>>(), vec![0, 1, 1]);
    let p = &stored[0];
    assert_eq!(p.id, "1");
    assert_eq!(p.device_name, "pc");
    assert_eq!(p.os, "macOS");
    assert_eq!(p.username, "");
    assert_eq!(p.user, "");
    assert_eq!(p.user_name, "Ana");
    assert_eq!(p.device_group_name, "Centro");
    assert_eq!(p.note, "");
}
