use ecma_rs::config::Config;

#[test]
fn too_few_arguments_is_an_error() {
    let none: Vec<String> = vec![];
    assert_eq!(Config::new(&none).unwrap_err(), "Not enough arguments");
    let only_program = vec!["prog".to_string()];
    assert_eq!(Config::new(&only_program).unwrap_err(), "Not enough arguments");
}

#[test]
fn first_argument_after_program_is_the_path() {
    let args = vec!["prog".to_string(), "input.js".to_string(), "extra".to_string()];
    let config = Config::new(&args).unwrap();
    assert_eq!(config.path, "input.js");
}
