use pingora_web::containment::starts_with;

#[test]
fn path_within_itself_and_below() {
    assert!(starts_with(b"/srv/www", b"/srv/www"));
    assert!(starts_with(b"/srv/www/index.html", b"/srv/www"));
    assert!(starts_with(b"/srv/www/a/b/c", b"/srv/www/a"));
    assert!(starts_with(b"/anything", b"/"));
    assert!(starts_with(b"/", b"/"));
    assert!(starts_with(b"", b""));
    assert!(starts_with(b"a/b", b"a"));
}

#[test]
fn path_beside_or_above_is_not_within() {
    assert!(!starts_with(b"/srv/www2", b"/srv/www"));
    assert!(!starts_with(b"/srv/ww", b"/srv/www"));
    assert!(!starts_with(b"/srv", b"/srv/www"));
    assert!(!starts_with(b"/", b"/srv"));
    assert!(!starts_with(b"/etc/passwd", b"/srv/www"));
    assert!(!starts_with(b"/srv/www/a", b"/srv/www/b"));
    assert!(!starts_with(b"/srv/WWW/a", b"/srv/www"));
}

#[test]
fn rooted_and_unrooted_paths_do_not_mix() {
    assert!(!starts_with(b"srv/www/a", b"/srv/www"));
    assert!(!starts_with(b"/srv/www/a", b"srv/www"));
    assert!(!starts_with(b"/srv", b""));
    assert!(!starts_with(b"", b"/"));
}

#[test]
fn empty_segments_and_lone_dots_name_nothing() {
    assert!(starts_with(b"/srv//www///a", b"/srv/www"));
    assert!(starts_with(b"/srv/www/a", b"//srv/./www/"));
    assert!(starts_with(b"/srv/./www/./a/.", b"/srv/www/a"));
    assert!(starts_with(b"/./.", b"/"));
    assert!(!starts_with(b"/srv/.www/a", b"/srv/www"));
    assert!(!starts_with(b"/srv/www./a", b"/srv/www"));
    assert!(starts_with(b"/srv/.../a", b"/srv/."));
    assert!(!starts_with(b"/srv/.../a", b"/srv/.."));
    assert!(starts_with(b"/srv/.../a", b"/srv/..."));
}

#[test]
fn two_dots_are_a_component_like_any_other() {
    assert!(!starts_with(b"/srv/www/../etc", b"/srv/etc"));
    assert!(starts_with(b"/srv/www/../etc", b"/srv/www"));
    assert!(starts_with(b"/srv/www/../etc", b"/srv/www/.."));
    assert!(!starts_with(b"/srv/www", b"/srv/www/.."));
    assert!(!starts_with(b"/srv", b"/srv/www/.."));
}
