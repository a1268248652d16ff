use cloudhome::config::{bucket_paths, Config, CLOUDHOME_CONFIG_PATH};
use cloudhome::error::SyncError;

fn config_at(cloudhome: &str, bucket_names: &[&str]) -> Config {
    Config {
        cloudhome: cloudhome.to_string(),
        credential_profile: "default".to_string(),
        log_file: "/var/log/cloudhome.log".to_string(),
        bucket_names: bucket_names.iter().map(|name| name.to_string()).collect(),
    }
}

#[test]
fn the_configuration_is_kept_in_the_home_directory() {
    assert_eq!(CLOUDHOME_CONFIG_PATH, "~/.cloudhome.json");
}

#[test]
fn a_configuration_is_parsed() {
    let text = r#"{
        "cloudhome": "~/cloudhome",
        "credential_profile": "default",
        "log_file": "/var/log/cloudhome.log",
        "bucket_names": ["photos", "documents"]
    }"#;
    assert_eq!(
        Config::read(text),
        Ok(Config {
            cloudhome: "~/cloudhome".to_string(),
            credential_profile: "default".to_string(),
            log_file: "/var/log/cloudhome.log".to_string(),
            bucket_names: vec!["photos".to_string(), "documents".to_string()],
        })
    );
}

#[test]
fn a_configuration_without_buckets() {
    let text = r#"{"cloudhome":"/srv","credential_profile":"p","log_file":"l","bucket_names":[]}"#;
    assert_eq!(Config::read(text), Ok(config_from("/srv", "p", "l")));
}

fn config_from(cloudhome: &str, profile: &str, log_file: &str) -> Config {
    Config {
        cloudhome: cloudhome.to_string(),
        credential_profile: profile.to_string(),
        log_file: log_file.to_string(),
        bucket_names: Vec::new(),
    }
}

#[test]
fn a_configuration_that_does_not_parse_is_a_format_error() {
    assert_eq!(Config::read("not json"), Err(SyncError::FormatError));
    assert_eq!(Config::read("[]"), Err(SyncError::FormatError));
    assert_eq!(
        Config::read(r#"{"cloudhome":"/srv","credential_profile":"p","bucket_names":[]}"#),
        Err(SyncError::FormatError)
    );
    assert_eq!(
        Config::read(r#"{"cloudhome":"/srv","credential_profile":"p","log_file":"l"}"#),
        Err(SyncError::FormatError)
    );
    assert_eq!(
        Config::read(
            r#"{"cloudhome":"/srv","credential_profile":"p","log_file":"l","bucket_names":["a",1]}"#
        ),
        Err(SyncError::FormatError)
    );
    assert_eq!(
        Config::read(
            r#"{"cloudhome":1,"credential_profile":"p","log_file":"l","bucket_names":[]}"#
        ),
        Err(SyncError::FormatError)
    );
    assert_eq!(
        Config::read(
            r#"{"cloudhome":"/srv","credential_profile":"p","log_file":"l","bucket_names":"a"}"#
        ),
        Err(SyncError::FormatError)
    );
}

#[test]
fn each_bucket_has_its_directory_below_the_root() {
    let names = vec!["photos".to_string(), "documents".to_string(), "".to_string()];
    assert_eq!(
        bucket_paths("/srv/cloud", &names),
        vec![
            "/srv/cloud/photos".to_string(),
            "/srv/cloud/documents".to_string(),
            "/srv/cloud/".to_string(),
        ]
    );
    assert_eq!(bucket_paths("", &vec!["a".to_string()]), vec!["/a".to_string()]);
    assert_eq!(bucket_paths("/srv", &Vec::new()), Vec::<String>::new());
}

#[test]
fn a_root_without_a_tilde_is_taken_as_it_is() {
    let config = config_at("/srv/cloud", &["photos", "documents"]);
    assert_eq!(
        config.cloudhome_paths(),
        vec!["/srv/cloud/photos".to_string(), "/srv/cloud/documents".to_string()]
    );
    let other = config_at("~someone/cloud", &["photos"]);
    assert_eq!(other.cloudhome_paths(), vec!["~someone/cloud/photos".to_string()]);
    let inner = config_at("/srv/~/cloud", &["photos"]);
    assert_eq!(inner.cloudhome_paths(), vec!["/srv/~/cloud/photos".to_string()]);
}

#[test]
fn a_leading_tilde_becomes_the_home_directory() {
    let config = config_at("~/cloudhome", &["photos", "documents"]);
    let paths = config.cloudhome_paths();
    assert_eq!(paths.len(), 2);
    assert!(paths[0].ends_with("/cloudhome/photos"));
    assert!(paths[1].ends_with("/cloudhome/documents"));
    let root = &paths[0][..paths[0].len() - "/photos".len()];
    assert_eq!(paths[1], format!("{}/documents", root));
}
