use freedpi::commands::{
    delete_list, holds_domain, import_domains_from_text, save_list, CustomDomainList, Endpoint,
};

fn list(id: &str, name: &str) -> CustomDomainList {
    CustomDomainList {
        id: id.into(),
        name: name.into(),
        domains: vec!["a.com".into()],
        created_at: "then".into(),
        updated_at: "now".into(),
    }
}

fn names(lists: &[CustomDomainList]) -> Vec<&str> {
    lists.iter().map(|l| l.name.as_str()).collect()
}

#[test]
fn endpoints_have_their_addresses() {
    assert_eq!(Endpoint::Status.url(None), "http://127.0.0.1:11337/api/v1/status");
    assert_eq!(Endpoint::Health.url(Some(80)), "http://127.0.0.1:80/api/v1/health");
    assert_eq!(Endpoint::Conntrack.url(Some(0)), "http://127.0.0.1:0/api/v1/conntrack");
    assert_eq!(Endpoint::Probe.url(Some(65535)), "http://127.0.0.1:65535/api/v1/probe");
    assert_eq!(
        Endpoint::ProbePresets.url(None),
        "http://127.0.0.1:11337/api/v1/probe/presets"
    );
    assert_eq!(
        Endpoint::ProbeHistory.url(None),
        "http://127.0.0.1:11337/api/v1/probe/history"
    );
    assert_eq!(
        Endpoint::ProbeBatch.url(None),
        "http://127.0.0.1:11337/api/v1/probe/batch"
    );
}

#[test]
fn lists_are_saved_under_their_identifier() {
    let mut lists = Vec::new();
    save_list(&mut lists, list("1", "one"));
    save_list(&mut lists, list("2", "two"));
    assert_eq!(names(&lists), vec!["one", "two"]);
    save_list(&mut lists, list("1", "uno"));
    assert_eq!(names(&lists), vec!["uno", "two"]);
    save_list(&mut lists, list("3", "three"));
    assert_eq!(names(&lists), vec!["uno", "two", "three"]);
}

#[test]
fn only_the_first_list_with_an_identifier_is_replaced() {
    let mut lists = vec![list("1", "one"), list("2", "two"), list("2", "again")];
    save_list(&mut lists, list("2", "dos"));
    assert_eq!(names(&lists), vec!["one", "dos", "again"]);
}

#[test]
fn lists_are_deleted_by_their_identifier() {
    let mut lists = vec![list("2", "two"), list("1", "one"), list("2", "again")];
    delete_list(&mut lists, "3");
    assert_eq!(names(&lists), vec!["two", "one", "again"]);
    delete_list(&mut lists, "2");
    assert_eq!(names(&lists), vec!["one"]);
    save_list(&mut lists, list("9", "nine"));
    delete_list(&mut lists, "9");
    assert_eq!(names(&lists), vec!["one"]);
    delete_list(&mut lists, "1");
    assert!(lists.is_empty());
}

#[test]
fn lists_can_be_copied() {
    let copy = list("1", "one").clone();
    assert_eq!((copy.id.as_str(), copy.name.as_str()), ("1", "one"));
    assert_eq!(copy.domains, vec!["a.com".to_string()]);
    assert_eq!((copy.created_at.as_str(), copy.updated_at.as_str()), ("then", "now"));
}

#[test]
fn domains_are_imported_line_by_line() {
    let text = "Example.COM\r\n\n  # a comment\n\t b.org \u{3000}\n#c.net\nЯндекс.РФ\n \t\nlast.one";
    let domains = import_domains_from_text(text.to_string()).unwrap();
    assert_eq!(domains, vec!["example.com", "b.org", "яндекс.рф", "last.one"]);
    assert!(import_domains_from_text(String::new()).unwrap().is_empty());
    assert!(import_domains_from_text("\n\n".to_string()).unwrap().is_empty());
    assert_eq!(
        import_domains_from_text("a b\rC\n".to_string()).unwrap(),
        vec!["a b\rc"]
    );
    assert_eq!(import_domains_from_text("x#y".to_string()).unwrap(), vec!["x#y"]);
}

#[test]
fn comments_and_blank_lines_hold_no_domain() {
    assert!(holds_domain("a"));
    assert!(!holds_domain(""));
    assert!(!holds_domain("#"));
    assert!(!holds_domain("#a"));
}
