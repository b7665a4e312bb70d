use robswebhub::configuration::Environment;

#[test]
fn environments_have_names() {
    assert_eq!(Environment::Dev.as_str(), "dev");
    assert_eq!(Environment::Production.as_str(), "production");
}

#[test]
fn environments_have_settings_files() {
    assert_eq!(Environment::Dev.settings_file(), "dev.yaml");
    assert_eq!(Environment::Production.settings_file(), "production.yaml");
}

#[test]
fn environment_is_read_in_any_case() {
    assert_eq!(Environment::try_from(String::from("dev")), Ok(Environment::Dev));
    assert_eq!(Environment::try_from(String::from("DEV")), Ok(Environment::Dev));
    assert_eq!(Environment::try_from(String::from("Production")), Ok(Environment::Production));
    assert_eq!(Environment::try_from(String::from("PRODUCTION")), Ok(Environment::Production));
}

#[test]
fn unknown_environment_is_refused_with_its_name() {
    assert_eq!(
        Environment::try_from(String::from("Staging")),
        Err(String::from(
            "staging is not a supported environment. Use either `dev` or `production`."
        ))
    );
    assert_eq!(
        Environment::try_from(String::new()),
        Err(String::from(" is not a supported environment. Use either `dev` or `production`."))
    );
}

#[test]
fn lower_case_name_is_matched_exactly() {
    assert_eq!(Environment::from_lowercase(String::from("dev")), Ok(Environment::Dev));
    assert_eq!(
        Environment::from_lowercase(String::from("DEV")),
        Err(String::from("DEV is not a supported environment. Use either `dev` or `production`."))
    );
    assert_eq!(
        Environment::from_lowercase(String::from("dev ")),
        Err(String::from("dev  is not a supported environment. Use either `dev` or `production`."))
    );
}
