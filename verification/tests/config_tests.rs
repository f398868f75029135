use tif2dds::config::{generate_config_file, load_nvtools_path, ConfigError};

#[test]
fn install_directory_is_read_from_the_general_section() {
    let text = "[General]\nnvtoolsdirectory = /opt/nvtools\n";
    assert_eq!(load_nvtools_path(text), Ok("/opt/nvtools".to_string()));
}

#[test]
fn missing_key_is_an_invalid_config() {
    let text = "[General]\nsomethingelse = 1\n";
    assert_eq!(load_nvtools_path(text), Err(ConfigError::InvalidConfig));
}

#[test]
fn missing_section_is_an_invalid_config() {
    let text = "[Other]\nnvtoolsdirectory = /opt/nvtools\n";
    assert_eq!(load_nvtools_path(text), Err(ConfigError::InvalidConfig));
}

#[test]
fn unparseable_text_is_an_invalid_config() {
    let text = "[General\nnvtoolsdirectory = /opt/nvtools\n";
    assert_eq!(load_nvtools_path(text), Err(ConfigError::InvalidConfig));
}

#[test]
fn generated_config_lines_point_at_the_given_directory() {
    let lines = generate_config_file(false, false, "/opt/nvtools").unwrap();
    assert_eq!(lines, vec!["[General]", "nvtoolsdirectory = /opt/nvtools"]);
}

#[test]
fn existing_config_is_kept_when_the_user_declines() {
    assert!(generate_config_file(true, false, "/opt/nvtools").is_none());
    assert!(generate_config_file(true, true, "/opt/nvtools").is_some());
    assert!(generate_config_file(false, true, "/opt/nvtools").is_some());
}

#[test]
fn generated_config_reads_back() {
    let lines = generate_config_file(false, false, "/opt/nvtools").unwrap();
    let text = lines.join("\n");
    assert_eq!(load_nvtools_path(&text), Ok("/opt/nvtools".to_string()));
}
