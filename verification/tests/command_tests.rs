use store_create::commands::{
    command_text, direct_install_command, export_command, import_command,
    lowered_refuses_name_option, seed_install_command, supports_named_install_error,
    unregister_command,
};
use store_create::messages::Phrase;
use store_create::naming::{choose_name, is_fit_name};

#[test]
fn commands_are_those_of_wsl() {
    assert_eq!(
        command_text(&direct_install_command("U", "n", "p", true)),
        "wsl --install U --name n --location p --no-launch --web-download"
    );
    assert_eq!(
        command_text(&direct_install_command("U", "n", "", false)),
        "wsl --install U --name n --no-launch"
    );
    assert_eq!(command_text(&seed_install_command("U", false)), "wsl --install -d U --no-launch");
    assert_eq!(command_text(&export_command("U", "a")), "wsl --export U a");
    assert_eq!(command_text(&unregister_command("U")), "wsl --unregister U");
    assert_eq!(command_text(&import_command("n", "p", "f", true)), "wsl --import n p f --vhd");
    assert_eq!(command_text(&Vec::new()), "wsl ");
}

#[test]
fn refusal_needs_the_option_and_a_word() {
    for word in ["invalid", "unknown", "option", "参数", "选项", "usage"] {
        assert!(lowered_refuses_name_option(&format!("{} --name", word)));
        assert!(!lowered_refuses_name_option(word));
    }
    assert!(!lowered_refuses_name_option("--name"));
    assert!(!lowered_refuses_name_option("--NAME invalid"));
}

#[test]
fn refusal_is_found_on_both_channels_in_any_case() {
    assert!(supports_named_install_error("--NAME", "INVALID"));
    assert!(supports_named_install_error("Usage:", "wsl --name"));
    assert!(supports_named_install_error("", "ÄÖ 参数 --Name"));
    assert!(!supports_named_install_error("--na", "me invalid"));
    assert!(!supports_named_install_error("network error", ""));
}

#[test]
fn typed_name_comes_first() {
    let stem = || Some("stem".to_string());
    assert_eq!(choose_name(2, "n", "f", "p", stem()), "n");
    assert_eq!(choose_name(2, "", "f", "p", stem()), "f");
    assert_eq!(choose_name(0, "", "f", "p", stem()), "stem");
    assert_eq!(choose_name(7, "", "f", "p", stem()), "stem");
    assert_eq!(choose_name(1, "", "f", "", stem()), "");
    assert_eq!(choose_name(1, "", "f", "p", None), "");
}

#[test]
fn names_are_short_and_plain() {
    assert!(is_fit_name("Ubuntu-24.04_dev"));
    assert!(is_fit_name(""));
    assert!(is_fit_name("abcdefghijklmnopqrstuvwxy"));
    assert!(!is_fit_name("abcdefghijklmnopqrstuvwxyz"));
    assert!(!is_fit_name("a b"));
    assert!(!is_fit_name("a/b"));
    assert!(!is_fit_name("é"));
}

#[test]
fn phrases_have_keys() {
    assert_eq!(Phrase::Error.key(), "install.error");
    assert_eq!(Phrase::NameExists.key(), "dialog.install_name_exists");
    assert_eq!(Phrase::StoreStep4.key(), "install.step_4");
    assert_eq!(Phrase::FileStep3.key(), "install.step_3_3");
    assert_eq!(Phrase::ImportFailedCustom.key(), "install.import_failed_custom");
}

#[test]
fn channels_may_be_swapped() {
    for (output, error) in [("--name", "Invalid"), ("--name usage", ""), ("--na", "me option"), ("x", "--NAME"), ("ΑΣ", "Σ --NAME 选项"), ("--Name", "参数 İ")] {
        assert_eq!(
            supports_named_install_error(output, error),
            supports_named_install_error(error, output)
        );
    }
}
