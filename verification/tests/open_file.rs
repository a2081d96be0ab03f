use http::header::{CONTENT_LENGTH, CONTENT_TYPE, LAST_MODIFIED};
use pingora_web::open_file::{
    FileMeta, Observed, Probe, ResolutionOutcome, ResolvedFile, Root, Step,
};
use pingora_web::http_date::epoch_seconds;
use pingora_web::response::{resolve_and_build, response_header, Reply};

/// What a filesystem in memory holds at a path.
#[derive(Clone, Copy)]
enum Entry {
    File { len: u64, modified: Option<i64> },
    Dir,
    /// A regular file whose metadata cannot be read.
    Unreadable,
    /// A regular file that cannot be opened.
    Locked,
    /// A link to another path.
    Link(&'static str),
}

struct Fs {
    entries: Vec<(&'static str, Entry)>,
    asked: Vec<Probe>,
}

impl Fs {
    fn new(entries: &[(&'static str, Entry)]) -> Fs {
        Fs { entries: entries.to_vec(), asked: Vec::new() }
    }

    fn site() -> Fs {
        Fs::new(&[
            ("/", Entry::Dir),
            ("/etc", Entry::Dir),
            ("/etc/passwd", Entry::File { len: 1024, modified: Some(0) }),
            ("/srv", Entry::Dir),
            ("/srv/www", Entry::Dir),
            ("/srv/www/index.html", Entry::File { len: 183, modified: Some(784111777) }),
            ("/srv/www/a_directory", Entry::Dir),
            ("/srv/www/a_directory/notes.txt", Entry::File { len: 12, modified: None }),
            ("/srv/www/data.bin", Entry::File { len: 4096, modified: Some(1431648000) }),
            ("/srv/www/README", Entry::File { len: 7, modified: Some(-1) }),
            ("/srv/www/broken.css", Entry::Unreadable),
            ("/srv/www/locked.js", Entry::Locked),
            ("/srv/www/secret.txt", Entry::Link("/etc/passwd")),
            ("/srv/www/home.htm", Entry::Link("/srv/www/index.html")),
            ("/srv/www/far.png", Entry::File { len: 1, modified: Some(i64::MAX) }),
            ("/srv/link", Entry::Link("/srv/www")),
            ("/srv/www2", Entry::Dir),
            ("/srv/www2/other.html", Entry::File { len: 5, modified: Some(0) }),
            ("/srv/www/tests", Entry::Dir),
            ("/srv/www/tests/files", Entry::Dir),
            ("/srv/www/tests/files/test.html", Entry::File { len: 183, modified: Some(1700000000) }),
        ])
    }

    fn entry(&self, path: &str) -> Option<Entry> {
        self.entries.iter().find(|(at, _)| *at == path).map(|(_, entry)| *entry)
    }

    /// The resolved form of `path`: `.` and `..` collapsed, links followed,
    /// and `None` where a segment is missing or is no directory.
    fn canonicalize(&self, path: &str) -> Option<String> {
        let mut at = String::from("/");
        for segment in path.split('/') {
            match segment {
                "" | "." => {}
                ".." => {
                    let cut = at.rfind('/').unwrap();
                    at.truncate(cut.max(1));
                }
                name => {
                    match self.entry(&at)? {
                        Entry::Dir => {}
                        _ => return None,
                    }
                    if at != "/" {
                        at.push('/');
                    }
                    at.push_str(name);
                    if let Entry::Link(target) = self.entry(&at)? {
                        at = target.to_string();
                    }
                }
            }
        }
        self.entry(&at)?;
        Some(at)
    }

    fn target(&self, path: &str) -> Option<Entry> {
        self.entry(&self.canonicalize(path)?)
    }

    fn answer(&mut self, probe: Probe, root: &Root, path: &str, seen: &mut Observed) {
        self.asked.push(probe);
        let target = self.target(path);
        match probe {
            Probe::CanonicalizeRoot => seen.root = Some(self.canonicalize(root.path())),
            Probe::Canonicalize => seen.canonical = Some(self.canonicalize(path)),
            Probe::Exists => seen.exists = Some(target.is_some()),
            Probe::IsFile => {
                seen.is_file =
                    Some(matches!(target, Some(Entry::File { .. } | Entry::Unreadable | Entry::Locked)))
            }
            Probe::Metadata => {
                seen.metadata = Some(match target {
                    Some(Entry::File { len, modified }) => {
                        Some(FileMeta { len, is_file: true, modified })
                    }
                    Some(Entry::Locked) => Some(FileMeta { len: 9, is_file: true, modified: None }),
                    Some(Entry::Dir) => Some(FileMeta { len: 0, is_file: false, modified: None }),
                    _ => None,
                })
            }
            Probe::Open => seen.opened = Some(matches!(target, Some(Entry::File { .. }))),
        }
    }
}

fn resolve(root: &Root, uri_path: &str, fs: &mut Fs) -> ResolutionOutcome {
    let path = root.candidate(uri_path);
    let mut seen = Observed::new();
    for _ in 0..7 {
        match root.file_path(uri_path, &seen) {
            Step::Ask(probe) => fs.answer(probe, root, &path, &mut seen),
            Step::Done(outcome) => return outcome,
        }
    }
    panic!("the resolution of {} did not end", uri_path);
}

fn site_dir() -> &'static str {
    "/srv/www"
}

fn field<'a>(response: &'a pingora_http::ResponseHeader, name: &http::header::HeaderName) -> &'a str {
    response.headers.get(name).unwrap().to_str().unwrap()
}

#[test]
fn test_no_file() {
    let root = format!("{}/tests/files", site_dir());
    let root = Root::new(&root);

    let file = resolve(&root, "/test1", &mut Fs::site());

    assert_eq!(file, ResolutionOutcome::NotFound);
}

#[test]
fn test_no_dir() {
    let root = format!("{}/tests/files", site_dir());
    let root = Root::new(&root);

    let file = resolve(&root, "/test_dir/test1", &mut Fs::site());

    assert_eq!(file, ResolutionOutcome::NotFound);
}

#[test]
fn test_file() {
    let root = format!("{}/tests/files", site_dir());
    let root = Root::new(&root);

    let ResolutionOutcome::Found(ResolvedFile { metadata: meta, path }) =
        resolve(&root, "/test.html", &mut Fs::site())
    else {
        panic!("not found");
    };

    assert!(meta.is_file());
    assert_eq!(path, format!("{}/tests/files/test.html", site_dir()));
}

#[test]
fn test_response_headers() {
    let root = format!("{}/tests/files", site_dir());
    let root = Root::new(&root);

    let opened = resolve(&root, "/test.html", &mut Fs::site());

    let (resp, has_body) = response_header(opened);

    assert_eq!(resp.status, 200);
    assert_eq!(resp.headers.get(CONTENT_LENGTH).unwrap(), "183");
    assert_eq!(resp.headers.get(CONTENT_TYPE).unwrap(), "text/html");
    assert!(resp.headers.get(LAST_MODIFIED).is_some());
    assert!(has_body.is_some());
}

#[test]
fn test_response_no_file() {
    let root = format!("{}/tests/files", site_dir());
    let root = Root::new(&root);

    let opened = resolve(&root, "/test.no", &mut Fs::site());

    let (resp, has_body) = response_header(opened);

    assert_eq!(resp.status, 404);
    assert_eq!(resp.headers.get(CONTENT_LENGTH).unwrap(), "0");
    assert!(has_body.is_none());
}

#[test]
fn test_response_no_access() {
    let root = format!("{}/tests/files", site_dir());
    let root = Root::new(&root);

    let opened = resolve(&root, "/test.no", &mut Fs::site());

    let (resp, has_body) = response_header(opened);

    assert_eq!(resp.status, 404);
    assert_eq!(resp.headers.get(CONTENT_LENGTH).unwrap(), "0");
    assert!(has_body.is_none());
}

#[test]
fn scenario_index_is_served() {
    let root = Root::new("/srv/www");
    let outcome = resolve(&root, "/index.html", &mut Fs::site());
    let (response, body) = response_header(outcome);

    assert_eq!(response.status, 200);
    assert_eq!(field(&response, &CONTENT_LENGTH), "183");
    assert_eq!(field(&response, &CONTENT_TYPE), "text/html");
    assert_eq!(field(&response, &LAST_MODIFIED), "Sun, 06 Nov 1994 08:49:37 GMT");
    assert_eq!(response.headers.len(), 3);
    assert_eq!(body, Some(FileMeta { len: 183, is_file: true, modified: Some(784111777) }));

    let mut reader = pingora_web::body::BodyReader::new(body.unwrap().len());
    let mut sum = 0;
    while let Some(request) = reader.read(65536) {
        let got = request.buffer.len();
        sum += reader.complete(request.buffer, got).len();
    }
    assert_eq!(sum, 183);
}

#[test]
fn scenario_missing_file_is_404() {
    let root = Root::new("/srv/www");
    let outcome = resolve(&root, "/missing.html", &mut Fs::site());
    assert_eq!(outcome, ResolutionOutcome::NotFound);
    let (response, body) = response_header(outcome);

    assert_eq!(response.status, 404);
    assert_eq!(field(&response, &CONTENT_LENGTH), "0");
    assert_eq!(response.headers.len(), 1);
    assert_eq!(body, None);
}

#[test]
fn scenario_escape_from_root_is_404() {
    let root = Root::new("/srv/www");
    let mut fs = Fs::site();
    assert_eq!(fs.canonicalize("/srv/www/../etc/passwd"), None);
    assert_eq!(fs.canonicalize("/srv/www/../../etc/passwd").as_deref(), Some("/etc/passwd"));

    for uri_path in ["/../etc/passwd", "/../../etc/passwd", "/a_directory/../../../etc/passwd"] {
        let outcome = resolve(&root, uri_path, &mut fs);
        assert_eq!(outcome, ResolutionOutcome::NotFound, "{}", uri_path);
        let (response, body) = response_header(outcome);
        assert_eq!(response.status, 404);
        assert_eq!(field(&response, &CONTENT_LENGTH), "0");
        assert_eq!(body, None);
    }
    assert!(fs
        .asked
        .iter()
        .all(|probe| matches!(probe, Probe::CanonicalizeRoot | Probe::Canonicalize)));
}

#[test]
fn scenario_directory_is_403() {
    let root = Root::new("/srv/www");
    let outcome = resolve(&root, "/a_directory", &mut Fs::site());
    assert_eq!(outcome, ResolutionOutcome::Forbidden("not a regular file".to_string()));
    let (response, body) = response_header(outcome);

    assert_eq!(response.status, 403);
    assert_eq!(field(&response, &CONTENT_LENGTH), "0");
    assert_eq!(response.headers.len(), 1);
    assert_eq!(body, None);
}

#[test]
fn unreadable_metadata_is_500() {
    let root = Root::new("/srv/www");
    let mut fs = Fs::site();
    let outcome = resolve(&root, "/broken.css", &mut fs);
    assert_eq!(outcome, ResolutionOutcome::IoError("path /srv/www/broken.css".to_string()));
    assert_eq!(
        fs.asked,
        vec![
            Probe::CanonicalizeRoot,
            Probe::Canonicalize,
            Probe::Exists,
            Probe::IsFile,
            Probe::Metadata
        ]
    );
    let (response, body) = response_header(outcome);

    assert_eq!(response.status, 500);
    assert_eq!(field(&response, &CONTENT_LENGTH), "0");
    assert_eq!(response.headers.len(), 1);
    assert_eq!(body, None);
}

#[test]
fn file_that_cannot_be_opened_is_500() {
    let root = Root::new("/srv/www");
    let outcome = resolve(&root, "/locked.js", &mut Fs::site());
    assert_eq!(outcome, ResolutionOutcome::IoError("path /srv/www/locked.js".to_string()));
    let (response, _) = response_header(outcome);
    assert_eq!(response.status, 500);
}

#[test]
fn questions_come_in_order_and_stop_at_the_outcome() {
    let root = Root::new("/srv/www");

    let mut fs = Fs::site();
    resolve(&root, "/index.html", &mut fs);
    assert_eq!(
        fs.asked,
        vec![
            Probe::CanonicalizeRoot,
            Probe::Canonicalize,
            Probe::Exists,
            Probe::IsFile,
            Probe::Metadata,
            Probe::Open
        ]
    );

    let mut fs = Fs::site();
    resolve(&root, "/missing.html", &mut fs);
    assert_eq!(fs.asked, vec![Probe::CanonicalizeRoot, Probe::Canonicalize]);

    let mut fs = Fs::site();
    resolve(&root, "/a_directory", &mut fs);
    assert_eq!(
        fs.asked,
        vec![Probe::CanonicalizeRoot, Probe::Canonicalize, Probe::Exists, Probe::IsFile]
    );

    let mut fs = Fs::site();
    resolve(&Root::new("/srv/nowhere"), "/index.html", &mut fs);
    assert_eq!(fs.asked, vec![Probe::CanonicalizeRoot]);
}

#[test]
fn file_path_step_by_step() {
    let root = Root::new("/srv/www");
    let mut seen = Observed::new();
    assert_eq!(root.file_path("/index.html", &seen), Step::Ask(Probe::CanonicalizeRoot));

    seen.root = Some(Some("/srv/www".to_string()));
    assert_eq!(root.file_path("/index.html", &seen), Step::Ask(Probe::Canonicalize));

    seen.canonical = Some(Some("/srv/www/index.html".to_string()));
    assert_eq!(root.file_path("/index.html", &seen), Step::Ask(Probe::Exists));

    seen.exists = Some(false);
    assert_eq!(root.file_path("/index.html", &seen), Step::Done(ResolutionOutcome::NotFound));

    seen.exists = Some(true);
    assert_eq!(root.file_path("/index.html", &seen), Step::Ask(Probe::IsFile));

    seen.is_file = Some(true);
    assert_eq!(root.file_path("/index.html", &seen), Step::Ask(Probe::Metadata));

    let metadata = FileMeta { len: 183, is_file: true, modified: None };
    seen.metadata = Some(Some(metadata));
    assert_eq!(root.file_path("/index.html", &seen), Step::Ask(Probe::Open));

    seen.opened = Some(true);
    assert_eq!(
        root.file_path("/index.html", &seen),
        Step::Done(ResolutionOutcome::Found(ResolvedFile {
            metadata,
            path: "/srv/www/index.html".to_string(),
        }))
    );
}

#[test]
fn answers_behind_a_failed_containment_do_not_count() {
    let root = Root::new("/srv/www");
    let metadata = FileMeta { len: 1024, is_file: true, modified: Some(0) };
    let everything = |canonical: Option<&str>| Observed {
        root: Some(Some("/srv/www".to_string())),
        canonical: Some(canonical.map(str::to_string)),
        exists: Some(true),
        is_file: Some(true),
        metadata: Some(Some(metadata)),
        opened: Some(true),
    };
    for outside in ["/etc/passwd", "/srv/www2/other.html", "/srv", "/", "srv/www/index.html", ""] {
        assert_eq!(
            root.file_path("/index.html", &everything(Some(outside))),
            Step::Done(ResolutionOutcome::NotFound),
            "{}",
            outside
        );
    }
    assert_eq!(
        root.file_path("/index.html", &everything(None)),
        Step::Done(ResolutionOutcome::NotFound)
    );
    assert!(matches!(
        root.file_path("/index.html", &everything(Some("/srv/www/index.html"))),
        Step::Done(ResolutionOutcome::Found(_))
    ));
}

#[test]
fn link_out_of_the_root_is_not_found() {
    let root = Root::new("/srv/www");
    assert_eq!(resolve(&root, "/secret.txt", &mut Fs::site()), ResolutionOutcome::NotFound);
}

#[test]
fn link_within_the_root_is_served_from_where_it_leads() {
    let root = Root::new("/srv/www");
    let outcome = resolve(&root, "/home.htm", &mut Fs::site());
    assert_eq!(
        outcome,
        ResolutionOutcome::Found(ResolvedFile {
            metadata: FileMeta { len: 183, is_file: true, modified: Some(784111777) },
            path: "/srv/www/index.html".to_string(),
        })
    );
}

#[test]
fn dots_that_stay_within_the_root_are_served() {
    let root = Root::new("/srv/www");
    let outcome = resolve(&root, "/a_directory/../index.html", &mut Fs::site());
    let ResolutionOutcome::Found(file) = outcome else {
        panic!("not found");
    };
    assert_eq!(file.path, "/srv/www/index.html");
    assert_eq!(file.metadata.len(), 183);
}

#[test]
fn leaving_the_root_and_coming_back_is_served() {
    let root = Root::new("/srv/www");
    let outcome = resolve(&root, "/../www/index.html", &mut Fs::site());
    let ResolutionOutcome::Found(file) = outcome else {
        panic!("not found");
    };
    assert_eq!(file.path, "/srv/www/index.html");

    let outcome = resolve(&root, "/../www2/other.html", &mut Fs::site());
    assert_eq!(outcome, ResolutionOutcome::NotFound);
}

#[test]
fn root_with_a_slash_at_its_end() {
    let root = Root::new("/srv/www/");
    let outcome = resolve(&root, "/index.html", &mut Fs::site());
    let ResolutionOutcome::Found(file) = outcome else {
        panic!("not found");
    };
    assert_eq!(file.path, "/srv/www/index.html");
}

#[test]
fn validate_compares_whole_components() {
    let root = Root::new("/srv/www");
    assert!(root.validate("/srv/www", "/srv/www"));
    assert!(root.validate("/srv/www", "/srv/www/"));
    assert!(root.validate("/srv/www", "/srv/www/index.html"));
    assert!(root.validate("/srv/www", "/srv/www/a_directory/notes.txt"));
    assert!(root.validate("/srv/www", "/srv//www/./index.html"));
    assert!(!root.validate("/srv/www", "/srv/www2"));
    assert!(!root.validate("/srv/www", "/srv/www2/other.html"));
    assert!(!root.validate("/srv/www", "/srv/ww"));
    assert!(!root.validate("/srv/www", "/srv"));
    assert!(!root.validate("/srv/www", "/"));
    assert!(!root.validate("/srv/www", ""));
    assert!(!root.validate("/srv/www", "/etc/passwd"));
    assert!(!root.validate("/srv/www", "/srv/www.html"));
    assert!(!root.validate("/srv/www", "srv/www/index.html"));
}

#[test]
fn validate_goes_by_the_resolved_root() {
    let root = Root::new("/srv/link");
    assert_eq!(root.path(), "/srv/link");
    assert!(root.validate("/srv/www", "/srv/www/index.html"));
    assert!(!root.validate("/srv/www", "/srv/link/index.html"));
    assert!(root.validate("/", "/etc/passwd"));
    assert!(root.validate("/", "/"));
    assert!(!root.validate("", "/srv"));
}

#[test]
fn root_given_through_a_link_serves_its_files() {
    let root = Root::new("/srv/link");
    let mut fs = Fs::site();
    assert_eq!(fs.canonicalize("/srv/link").as_deref(), Some("/srv/www"));
    let outcome = resolve(&root, "/index.html", &mut fs);
    assert_eq!(
        outcome,
        ResolutionOutcome::Found(ResolvedFile {
            metadata: FileMeta { len: 183, is_file: true, modified: Some(784111777) },
            path: "/srv/www/index.html".to_string(),
        })
    );
    let (response, body) = response_header(outcome);
    assert_eq!(response.status, 200);
    assert_eq!(field(&response, &CONTENT_LENGTH), "183");
    assert_eq!(field(&response, &CONTENT_TYPE), "text/html");
    assert!(body.is_some());

    assert_eq!(resolve(&root, "/../etc/passwd", &mut fs), ResolutionOutcome::NotFound);
    assert_eq!(resolve(&root, "/../www2/other.html", &mut fs), ResolutionOutcome::NotFound);
    assert_eq!(resolve(&root, "/secret.txt", &mut fs), ResolutionOutcome::NotFound);
    assert_eq!(
        resolve(&root, "/a_directory", &mut fs),
        ResolutionOutcome::Forbidden("not a regular file".to_string())
    );
    assert_eq!(
        resolve(&root, "/locked.js", &mut fs),
        ResolutionOutcome::IoError("path /srv/link/locked.js".to_string())
    );
}

#[test]
fn root_written_with_dots_is_held_to_where_it_leads() {
    let mut fs = Fs::site();
    for written in ["/srv/./www//", "/srv/www/../www", "/srv/www2/../www", "/srv/www/a_directory/.."] {
        let root = Root::new(written);
        let ResolutionOutcome::Found(file) = resolve(&root, "/index.html", &mut fs) else {
            panic!("{} not found", written);
        };
        assert_eq!(file.path, "/srv/www/index.html");
        assert_eq!(resolve(&root, "/../www2/other.html", &mut fs), ResolutionOutcome::NotFound);
    }

    let above = Root::new("/srv/www/..");
    let ResolutionOutcome::Found(file) = resolve(&above, "/www2/other.html", &mut fs) else {
        panic!("not found");
    };
    assert_eq!(file.path, "/srv/www2/other.html");
    assert_eq!(resolve(&above, "/../etc/passwd", &mut fs), ResolutionOutcome::NotFound);
}

#[test]
fn root_that_cannot_be_resolved_holds_nothing() {
    let mut fs = Fs::site();
    for written in ["/srv/nowhere", "/srv/www/index.html/x", ""] {
        let root = Root::new(written);
        assert_eq!(resolve(&root, "/index.html", &mut fs), ResolutionOutcome::NotFound);
    }
    let root = Root::new("/srv/www");
    let mut seen = Observed::new();
    seen.root = Some(None);
    seen.canonical = Some(Some("/srv/www/index.html".to_string()));
    seen.exists = Some(true);
    seen.is_file = Some(true);
    assert_eq!(root.file_path("/index.html", &seen), Step::Done(ResolutionOutcome::NotFound));
}

#[test]
fn candidate_is_root_then_request_path() {
    assert_eq!(Root::new("/srv/www").candidate("/index.html"), "/srv/www/index.html");
    assert_eq!(Root::new("/srv/www").candidate("/../etc/passwd"), "/srv/www/../etc/passwd");
    assert_eq!(Root::new("/srv/www/").candidate("/"), "/srv/www//");
}

#[test]
fn content_type_is_omitted_without_a_known_extension() {
    let root = Root::new("/srv/www");
    for (uri_path, length) in [("/data.bin", "4096"), ("/README", "7")] {
        let (response, body) = response_header(resolve(&root, uri_path, &mut Fs::site()));
        assert_eq!(response.status, 200);
        assert_eq!(field(&response, &CONTENT_LENGTH), length);
        assert!(response.headers.get(CONTENT_TYPE).is_none());
        assert!(response.headers.get(LAST_MODIFIED).is_some());
        assert_eq!(response.headers.len(), 2);
        assert!(body.is_some());
    }
}

#[test]
fn last_modified_is_omitted_without_a_time() {
    let root = Root::new("/srv/www");
    let (response, body) = response_header(resolve(&root, "/a_directory/notes.txt", &mut Fs::site()));
    assert_eq!(response.status, 200);
    assert_eq!(field(&response, &CONTENT_LENGTH), "12");
    assert_eq!(field(&response, &CONTENT_TYPE), "text/plain");
    assert!(response.headers.get(LAST_MODIFIED).is_none());
    assert_eq!(body, Some(FileMeta { len: 12, is_file: true, modified: None }));
}

#[test]
fn last_modified_is_omitted_for_a_time_beyond_the_calendar() {
    let root = Root::new("/srv/www");
    let (response, _) = response_header(resolve(&root, "/far.png", &mut Fs::site()));
    assert_eq!(response.status, 200);
    assert_eq!(field(&response, &CONTENT_TYPE), "image/png");
    assert!(response.headers.get(LAST_MODIFIED).is_none());
}

#[test]
fn last_modified_is_an_http_date() {
    let dates = [
        (0, "Thu, 01 Jan 1970 00:00:00 GMT"),
        (-1, "Wed, 31 Dec 1969 23:59:59 GMT"),
        (784111777, "Sun, 06 Nov 1994 08:49:37 GMT"),
        (951782400, "Tue, 29 Feb 2000 00:00:00 GMT"),
        (1431648000, "Fri, 15 May 2015 00:00:00 GMT"),
        (1700000000, "Tue, 14 Nov 2023 22:13:20 GMT"),
        (4102444799, "Thu, 31 Dec 2099 23:59:59 GMT"),
    ];
    for (seconds, text) in dates {
        let found = ResolutionOutcome::Found(ResolvedFile {
            metadata: FileMeta { len: 1, is_file: true, modified: Some(seconds) },
            path: "/srv/www/file".to_string(),
        });
        let (response, _) = response_header(found);
        assert_eq!(field(&response, &LAST_MODIFIED), text);
    }
}

#[test]
fn content_length_is_the_length_in_decimal() {
    for (len, text) in [
        (0u64, "0"),
        (9, "9"),
        (10, "10"),
        (183, "183"),
        (1000000, "1000000"),
        (u64::MAX, "18446744073709551615"),
    ] {
        let found = ResolutionOutcome::Found(ResolvedFile {
            metadata: FileMeta { len, is_file: true, modified: None },
            path: "/srv/www/file".to_string(),
        });
        let (response, body) = response_header(found);
        assert_eq!(response.status, 200);
        assert_eq!(field(&response, &CONTENT_LENGTH), text);
        assert_eq!(body.unwrap().len(), len);
    }
}

#[test]
fn body_only_with_status_200() {
    let outcomes = [
        ResolutionOutcome::Found(ResolvedFile {
            metadata: FileMeta { len: 5, is_file: true, modified: None },
            path: "/srv/www/a.txt".to_string(),
        }),
        ResolutionOutcome::NotFound,
        ResolutionOutcome::Forbidden("not a regular file".to_string()),
        ResolutionOutcome::IoError("path /srv/www/a.txt".to_string()),
    ];
    let statuses = [200, 404, 403, 500];
    for (outcome, status) in outcomes.into_iter().zip(statuses) {
        let (response, body) = response_header(outcome);
        assert_eq!(response.status, status);
        assert_eq!(body.is_some(), status == 200);
        if status != 200 {
            assert_eq!(field(&response, &CONTENT_LENGTH), "0");
            assert_eq!(response.headers.len(), 1);
        }
    }
}

#[test]
fn header_names_keep_their_case_on_the_wire() {
    let found = ResolutionOutcome::Found(ResolvedFile {
        metadata: FileMeta { len: 183, is_file: true, modified: Some(784111777) },
        path: "/srv/www/index.html".to_string(),
    });
    let (response, _) = response_header(found);
    let mut wire = Vec::new();
    response.header_to_h1_wire(&mut wire);
    assert_eq!(
        String::from_utf8(wire).unwrap(),
        "Content-Length: 183\r\nContent-Type: text/html\r\nlast-modified: Sun, 06 Nov 1994 08:49:37 GMT\r\n"
    );
}

#[test]
fn nothing_is_known_at_first() {
    let seen = Observed::new();
    assert_eq!(
        seen,
        Observed {
            root: None,
            canonical: None,
            exists: None,
            is_file: None,
            metadata: None,
            opened: None
        }
    );
}

#[test]
fn resolve_and_build_asks_then_responds() {
    let root = Root::new("/srv/www");
    let mut fs = Fs::site();
    let path = root.candidate("/index.html");
    let mut seen = Observed::new();
    let mut asked = Vec::new();
    let (response, body) = loop {
        match resolve_and_build(&root, "/index.html", &seen) {
            Reply::Ask(probe) => {
                asked.push(probe);
                fs.answer(probe, &root, &path, &mut seen);
            }
            Reply::Respond(response, body) => break (response, body),
        }
    };
    assert_eq!(
        asked,
        vec![
            Probe::CanonicalizeRoot,
            Probe::Canonicalize,
            Probe::Exists,
            Probe::IsFile,
            Probe::Metadata,
            Probe::Open
        ]
    );
    assert_eq!(response.status, 200);
    assert_eq!(field(&response, &CONTENT_LENGTH), "183");
    assert_eq!(field(&response, &CONTENT_TYPE), "text/html");
    assert_eq!(field(&response, &LAST_MODIFIED), "Sun, 06 Nov 1994 08:49:37 GMT");
    assert_eq!(body.map(|meta| meta.len()), Some(183));

    let mut seen = Observed::new();
    seen.root = Some(Some("/srv/www".to_string()));
    seen.canonical = Some(None);
    let Reply::Respond(response, body) = resolve_and_build(&root, "/../etc/passwd", &seen) else {
        panic!("asked for more");
    };
    assert_eq!(response.status, 404);
    assert_eq!(field(&response, &CONTENT_LENGTH), "0");
    assert_eq!(body, None);
}

#[test]
fn last_modified_is_there_for_every_time_of_the_years_0_to_9999() {
    use_dates(&[
        (-62167219200, "Sat, 01 Jan 0000 00:00:00 GMT"),
        (-62135596800, "Mon, 01 Jan 0001 00:00:00 GMT"),
        (-30610224000, "Wed, 01 Jan 1000 00:00:00 GMT"),
        (253402300799, "Fri, 31 Dec 9999 23:59:59 GMT"),
    ]);
}

fn use_dates(dates: &[(i64, &str)]) {
    for (seconds, text) in dates {
        let found = ResolutionOutcome::Found(ResolvedFile {
            metadata: FileMeta { len: 1, is_file: true, modified: Some(*seconds) },
            path: "/srv/www/file".to_string(),
        });
        let (response, _) = response_header(found);
        assert_eq!(field(&response, &LAST_MODIFIED), *text);
        assert_eq!(text.len(), 29);
    }
}

#[test]
fn every_name_has_one_value() {
    let found = ResolutionOutcome::Found(ResolvedFile {
        metadata: FileMeta { len: 183, is_file: true, modified: Some(784111777) },
        path: "/srv/www/index.html".to_string(),
    });
    let (response, _) = response_header(found);
    for name in [CONTENT_LENGTH, CONTENT_TYPE, LAST_MODIFIED] {
        assert_eq!(response.headers.get_all(&name).iter().count(), 1);
    }
    assert_eq!(response.headers.len(), 3);
    assert_eq!(response.headers.keys_len(), 3);

    let (response, _) = response_header(ResolutionOutcome::NotFound);
    assert_eq!(response.headers.get_all(CONTENT_LENGTH).iter().count(), 1);
    assert_eq!(response.headers.len(), 1);
}

#[test]
fn epoch_seconds_count_whole_seconds_from_1970() {
    assert_eq!(epoch_seconds(true, 0, 0), Some(0));
    assert_eq!(epoch_seconds(false, 0, 0), Some(0));
    assert_eq!(epoch_seconds(true, 784111777, 0), Some(784111777));
    assert_eq!(epoch_seconds(true, 784111777, 999_999_999), Some(784111777));
    assert_eq!(epoch_seconds(false, 1, 0), Some(-1));
    assert_eq!(epoch_seconds(false, 0, 1), Some(-1));
    assert_eq!(epoch_seconds(false, 1, 500_000_000), Some(-2));
    assert_eq!(epoch_seconds(true, i64::MAX as u64, 0), Some(i64::MAX));
    assert_eq!(epoch_seconds(true, i64::MAX as u64 + 1, 0), None);
    assert_eq!(epoch_seconds(true, u64::MAX, 0), None);
    assert_eq!(epoch_seconds(false, i64::MAX as u64, 1), Some(i64::MIN));
    assert_eq!(epoch_seconds(false, i64::MAX as u64 + 1, 0), Some(i64::MIN));
    assert_eq!(epoch_seconds(false, i64::MAX as u64 + 1, 1), None);
    assert_eq!(epoch_seconds(false, u64::MAX, 0), None);
}
