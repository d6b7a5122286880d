use config::ConfigError;
use config_load::load::{AsyncBuilder, SyncBuilder};
use config_load::location::file::{Answer, Query, Resolution};
use config_load::path::FilePath;
use config_load::{ConfigLoader, FileLocation, Load};

fn fp(s: &str) -> FilePath {
    let absolute = s.starts_with('/');
    let parts: Vec<String> = s.split('/').filter(|c| !c.is_empty()).map(String::from).collect();
    FilePath::new(absolute, parts)
}

fn texts(paths: &Vec<FilePath>) -> Vec<String> {
    paths.iter().map(|p| p.to_text()).collect()
}

/// Answers from a fixed environment, home, working directory and file set.
fn resolve(
    location: FileLocation,
    env: &[(&str, &str)],
    home: Option<&str>,
    cwd: Option<&str>,
    files: &[&str],
) -> Resolution {
    let mut r = location.resolution();
    while let Some(q) = r.query() {
        let a = match q {
            Query::EnvVar(name) => Answer::Path(env.iter().find(|(n, _)| *n == name).map(|(_, v)| fp(v))),
            Query::HomeDir => Answer::Path(home.map(fp)),
            Query::CurrentDir => Answer::Path(cwd.map(fp)),
            Query::IsFile(p) => Answer::IsFile(files.contains(&p.to_text().as_str())),
        };
        r = r.answer(a);
    }
    r
}

fn flags(loader: &ConfigLoader, files: &[&str]) -> Vec<bool> {
    loader.config_paths().iter().map(|p| files.contains(&p.to_text().as_str())).collect()
}

#[test]
fn add_unresolved_location_leaves_paths_unchanged() {
    let loader = ConfigLoader::new_default();
    let r = resolve(FileLocation::first_some_path().from_env("UNSET".to_string()), &[], None, None, &[]);
    let loader = loader.add(r);
    assert!(loader.config_paths().is_empty());
    let r = resolve(FileLocation::first_some_path().from_file(Some(fp("/a.toml"))), &[], None, None, &[]);
    let loader = loader.add(r);
    assert_eq!(texts(loader.config_paths()), vec!["/a.toml".to_string()]);
    let r = resolve(FileLocation::first_some_path(), &[], None, None, &[]);
    let loader = loader.add(r);
    assert_eq!(texts(loader.config_paths()), vec!["/a.toml".to_string()]);
}

#[test]
fn add_keeps_order_of_addition() {
    let mut loader: ConfigLoader = ConfigLoader::default();
    for f in ["/c.toml", "/a.toml", "/b.toml"] {
        let r = resolve(FileLocation::first_some_path().from_file(Some(fp(f))), &[], None, None, &[]);
        loader = loader.add(r);
    }
    assert_eq!(
        texts(loader.config_paths()),
        vec!["/c.toml".to_string(), "/a.toml".to_string(), "/b.toml".to_string()]
    );
}

#[test]
fn exclude_not_exists_keeps_existing_files_and_is_idempotent() {
    let files = ["/b.toml", "/d.toml"];
    let mut loader = ConfigLoader::new_default();
    for f in ["/a.toml", "/b.toml", "/c.toml", "/d.toml"] {
        let r = resolve(FileLocation::first_some_path().from_file(Some(fp(f))), &[], None, None, &[]);
        loader = loader.add(r);
    }
    let once = flags(&loader, &files);
    let loader = loader.exclude_not_exists(&once);
    assert_eq!(texts(loader.config_paths()), vec!["/b.toml".to_string(), "/d.toml".to_string()]);
    let twice = flags(&loader, &files);
    let loader = loader.exclude_not_exists(&twice);
    assert_eq!(texts(loader.config_paths()), vec!["/b.toml".to_string(), "/d.toml".to_string()]);
}

#[test]
fn home_chain_and_parents_walk_give_one_path() {
    let env: [(&str, &str); 0] = [];
    let files = ["/home/u/AppConfig.toml"];
    let loader = ConfigLoader::new_default();
    let first = resolve(
        FileLocation::first_some_path()
            .from_env("APP_ROOT_CONFIG".to_string())
            .from_home(fp(".example_app/AppConfig.toml")),
        &env,
        Some("/home/u"),
        Some("/home/u/project"),
        &files,
    );
    let loader = loader.add(first);
    assert_eq!(texts(loader.config_paths()), vec!["/home/u/.example_app/AppConfig.toml".to_string()]);
    let exists = flags(&loader, &files);
    let loader = loader.exclude_not_exists(&exists);
    assert!(loader.config_paths().is_empty());
    let second = resolve(
        FileLocation::first_some_path()
            .from_file(None)
            .from_cwd_and_parents_exists(fp("AppConfig.toml")),
        &env,
        Some("/home/u"),
        Some("/home/u/project"),
        &files,
    );
    let loader = loader.add(second);
    assert_eq!(texts(loader.config_paths()), vec!["/home/u/AppConfig.toml".to_string()]);
}

#[test]
fn explicit_relative_config_file_resolves_under_work() {
    let files = ["/AppConfig.toml"];
    let loader = ConfigLoader::new_default();
    let r = resolve(
        FileLocation::first_some_path()
            .from_file(Some(fp("AppConfig.toml")))
            .from_cwd_and_parents_exists(fp("AppConfig.toml")),
        &[],
        None,
        Some("/work"),
        &files,
    );
    let loader = loader.add(r);
    assert_eq!(texts(loader.config_paths()), vec!["/work/AppConfig.toml".to_string()]);
}

struct Built;

impl Load for Built {
    fn load(config_builder: SyncBuilder) -> Result<Self, ConfigError> {
        config_builder.builder.build().map(|_| Built)
    }
}

#[test]
fn cloned_loader_keeps_the_same_paths() {
    let r = resolve(FileLocation::first_some_path().from_file(Some(fp("/x.toml"))), &[], None, None, &[]);
    let loader = ConfigLoader::new_default().add(r);
    let copy = loader.clone();
    assert_eq!(texts(copy.config_paths()), texts(loader.config_paths()));
}

#[test]
fn load_with_no_files_succeeds() {
    let loader = ConfigLoader::new_default();
    let loaded: config_load::Result<Built> = loader.load::<Built>();
    assert!(loaded.is_ok());
}

#[test]
fn builder_registers_each_path_as_required_file() {
    let r = resolve(
        FileLocation::first_some_path().from_file(Some(fp("/definitely/not/here/app.toml"))),
        &[],
        None,
        None,
        &[],
    );
    let loader = ConfigLoader::new_default().add(r);
    assert!(loader.builder().builder.build().is_err());
}

struct Flavour;

impl Load<AsyncBuilder> for Flavour {
    fn load(_config_builder: AsyncBuilder) -> Result<Self, ConfigError> {
        Ok(Flavour)
    }
}

#[test]
fn async_loader_accumulates_like_the_sync_one() {
    let r = resolve(FileLocation::first_some_path().from_cwd(fp("app.toml")), &[], None, Some("/srv"), &[]);
    let loader = ConfigLoader::new_async().add(r);
    assert_eq!(texts(loader.config_paths()), vec!["/srv/app.toml".to_string()]);
    assert!(loader.load::<Flavour>().is_ok());
}
