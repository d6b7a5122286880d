use config_load::location::file::{Answer, Query, Resolution};
use config_load::path::FilePath;
use config_load::{FileLocation, Location};
use either::Either;

fn fp(s: &str) -> FilePath {
    let absolute = s.starts_with('/');
    let parts: Vec<String> = s.split('/').filter(|c| !c.is_empty()).map(String::from).collect();
    FilePath::new(absolute, parts)
}

struct FakeHost {
    env: Vec<(String, String)>,
    home: Option<String>,
    cwd: Option<String>,
    files: Vec<String>,
    asked: Vec<String>,
}

impl FakeHost {
    fn new(home: Option<&str>, cwd: Option<&str>, files: &[&str]) -> Self {
        FakeHost {
            env: Vec::new(),
            home: home.map(String::from),
            cwd: cwd.map(String::from),
            files: files.iter().map(|f| f.to_string()).collect(),
            asked: Vec::new(),
        }
    }

    fn answer(&mut self, q: Query) -> Answer {
        match q {
            Query::EnvVar(name) => {
                self.asked.push(format!("env {}", name));
                let v = self.env.iter().find(|(n, _)| *n == name).map(|(_, v)| fp(v));
                Answer::Path(v)
            },
            Query::HomeDir => {
                self.asked.push("home".to_string());
                Answer::Path(self.home.as_deref().map(fp))
            },
            Query::CurrentDir => {
                self.asked.push("cwd".to_string());
                Answer::Path(self.cwd.as_deref().map(fp))
            },
            Query::IsFile(p) => {
                let text = p.to_text();
                self.asked.push(format!("is_file {}", text));
                Answer::IsFile(self.files.contains(&text))
            },
        }
    }

    fn resolve(&mut self, location: FileLocation) -> Option<String> {
        let mut r: Resolution = location.resolution();
        while let Some(q) = r.query() {
            let a = self.answer(q);
            r = r.answer(a);
        }
        match r.try_into_path() {
            Either::Left(p) => Some(p.to_text()),
            Either::Right(_) => None,
        }
    }
}

#[test]
fn empty_chain_yields_nothing() {
    let mut host = FakeHost::new(Some("/home/u"), Some("/work"), &[]);
    assert_eq!(host.resolve(FileLocation::first_some_path()), None);
    assert!(host.asked.is_empty());
}

#[test]
fn first_present_source_wins_and_later_ones_are_not_asked() {
    let mut host = FakeHost::new(Some("/home/u"), Some("/work"), &[]);
    host.env.push(("APP_CONFIG".to_string(), "/etc/app.toml".to_string()));
    let loc = FileLocation::first_some_path()
        .from_file(Some(fp("/explicit.toml")))
        .from_env("APP_CONFIG".to_string())
        .from_home(fp("app.toml"));
    assert_eq!(host.resolve(loc), Some("/explicit.toml".to_string()));
    assert!(host.asked.is_empty());

    let mut host = FakeHost::new(Some("/home/u"), Some("/work"), &[]);
    host.env.push(("APP_CONFIG".to_string(), "/etc/app.toml".to_string()));
    let loc = FileLocation::first_some_path()
        .from_file(None)
        .from_env("APP_CONFIG".to_string())
        .from_home(fp("app.toml"));
    assert_eq!(host.resolve(loc), Some("/etc/app.toml".to_string()));
    assert_eq!(host.asked, vec!["env APP_CONFIG".to_string()]);
}

#[test]
fn unset_env_falls_through_to_home() {
    let mut host = FakeHost::new(Some("/home/u"), Some("/work"), &[]);
    let loc = FileLocation::first_some_path()
        .from_env("APP_CONFIG".to_string())
        .from_home(fp(".app/app.toml"));
    assert_eq!(host.resolve(loc), Some("/home/u/.app/app.toml".to_string()));
}

#[test]
fn missing_file_in_checked_source_falls_through() {
    let mut host = FakeHost::new(Some("/home/u"), Some("/work"), &["/work/app.toml"]);
    let loc = FileLocation::first_some_path()
        .from_home_exists(fp("app.toml"))
        .from_cwd_exists(fp("app.toml"));
    assert_eq!(host.resolve(loc), Some("/work/app.toml".to_string()));

    let mut host = FakeHost::new(Some("/home/u"), Some("/work"), &[]);
    host.env.push(("APP_CONFIG".to_string(), "/nowhere.toml".to_string()));
    let loc = FileLocation::first_some_path()
        .from_env_exists("APP_CONFIG".to_string())
        .from_file_exists(Some(fp("/missing.toml")));
    assert_eq!(host.resolve(loc), None);
}

#[test]
fn unchecked_sources_accept_missing_files() {
    let mut host = FakeHost::new(Some("/home/u"), Some("/work"), &[]);
    let loc = FileLocation::first_some_path().from_cwd(fp("app.toml")).from_home(fp("x"));
    assert_eq!(host.resolve(loc), Some("/work/app.toml".to_string()));
    assert_eq!(host.asked, vec!["cwd".to_string()]);
}

#[test]
fn relative_explicit_path_is_joined_onto_cwd() {
    let mut host = FakeHost::new(None, Some("/work"), &[]);
    let loc = FileLocation::first_some_path().from_file(Some(fp("conf/app.toml")));
    assert_eq!(host.resolve(loc), Some("/work/conf/app.toml".to_string()));

    let mut host = FakeHost::new(None, Some("/work"), &["/work/app.toml"]);
    let loc = FileLocation::first_some_path().from_file_exists(Some(fp("app.toml")));
    assert_eq!(host.resolve(loc), Some("/work/app.toml".to_string()));
}

#[test]
fn absolute_explicit_path_is_taken_as_is() {
    let mut host = FakeHost::new(None, Some("/work"), &[]);
    let loc = FileLocation::first_some_path().from_file(Some(fp("/etc/app.toml")));
    assert_eq!(host.resolve(loc), Some("/etc/app.toml".to_string()));
    assert!(host.asked.is_empty());
}

#[test]
fn no_home_directory_falls_through() {
    let mut host = FakeHost::new(None, Some("/work"), &[]);
    let loc = FileLocation::first_some_path().from_home(fp("app.toml")).from_cwd(fp("b.toml"));
    assert_eq!(host.resolve(loc), Some("/work/b.toml".to_string()));
}

#[test]
fn cwd_and_parents_finds_file_in_grandparent() {
    let mut host = FakeHost::new(None, Some("/a/b/c"), &["/a/app.toml", "/app.toml"]);
    let loc = FileLocation::first_some_path().from_cwd_and_parents_exists(fp("app.toml"));
    assert_eq!(host.resolve(loc), Some("/a/app.toml".to_string()));
    assert_eq!(
        host.asked,
        vec![
            "cwd".to_string(),
            "is_file /a/b/c/app.toml".to_string(),
            "is_file /a/b/app.toml".to_string(),
            "is_file /a/app.toml".to_string(),
        ]
    );
}

#[test]
fn cwd_and_parents_checks_the_root_and_then_gives_up() {
    let mut host = FakeHost::new(None, Some("/a/b"), &["/app.toml"]);
    let loc = FileLocation::first_some_path().from_cwd_and_parents_exists(fp("app.toml"));
    assert_eq!(host.resolve(loc), Some("/app.toml".to_string()));

    let mut host = FakeHost::new(None, Some("/a/b"), &["/a/b/other.toml"]);
    let loc = FileLocation::first_some_path().from_cwd_and_parents_exists(fp("app.toml"));
    assert_eq!(host.resolve(loc), None);
    assert_eq!(host.asked.len(), 4);
}

#[test]
fn unresolved_resolution_comes_back_empty() {
    let r = FileLocation::first_some_path().from_home(fp("app.toml")).resolution();
    assert!(!r.is_done());
    assert!(matches!(r.query(), Some(Query::HomeDir)));
    let r = r.answer(Answer::Path(None));
    assert!(r.is_done());
    assert!(r.query().is_none());
    match r.try_into_path() {
        Either::Right(e) => {
            assert!(e.is_done());
            assert!(e.query().is_none());
        },
        Either::Left(_) => panic!("no path was found"),
    }
}

#[test]
fn unfinished_resolution_comes_back_empty() {
    let r = FileLocation::first_some_path().from_env("X".to_string()).resolution();
    assert!(!r.is_done());
    match r.try_into_path() {
        Either::Right(e) => assert!(e.is_done()),
        Either::Left(_) => panic!("nothing was answered"),
    }
}

#[test]
fn absolute_explicit_path_is_done_at_start() {
    let r = FileLocation::first_some_path()
        .from_file(Some(fp("/etc/app.toml")))
        .from_cwd_and_parents_exists(fp("app.toml"))
        .resolution();
    assert!(r.is_done());
    match r.try_into_path() {
        Either::Left(p) => assert_eq!(p.to_text(), "/etc/app.toml"),
        Either::Right(_) => panic!("the explicit path decides"),
    }
}

#[test]
fn explicit_relative_file_wins_over_parents_fallback() {
    let mut host = FakeHost::new(None, Some("/work"), &["/AppConfig.toml"]);
    let loc = FileLocation::first_some_path()
        .from_file(Some(fp("AppConfig.toml")))
        .from_cwd_and_parents_exists(fp("AppConfig.toml"));
    assert_eq!(host.resolve(loc), Some("/work/AppConfig.toml".to_string()));
    assert_eq!(host.asked, vec!["cwd".to_string()]);
}
