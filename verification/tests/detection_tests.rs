use sea_lantern::core_type::{
    core_type_from_main_class, detect_core_type, file_name_of, is_script_file, CoreType,
};
use sea_lantern::jar_manifest::find_manifest_main_class;

#[test]
fn keywords_in_file_names_pick_the_core() {
    assert_eq!(CoreType::detect_from_filename("paper-1.20.4-496.jar"), CoreType::Paper);
    assert_eq!(CoreType::detect_from_filename("PURPUR-1.19.jar"), CoreType::Purpur);
    assert_eq!(CoreType::detect_from_filename("arclight-forge-1.0.jar"), CoreType::ArclightForge);
    assert_eq!(CoreType::detect_from_filename("my-fabric-server.jar"), CoreType::Fabric);
    assert_eq!(CoreType::detect_from_filename("plain.jar"), CoreType::Unknown);
}

#[test]
fn earlier_keywords_win() {
    assert_eq!(CoreType::detect_from_filename("mohist-paper.jar"), CoreType::Mohist);
    assert_eq!(
        CoreType::detect_from_filename("pufferfish_purpur-x.jar"),
        CoreType::PufferfishPurpur
    );
}

#[test]
fn canonical_names_round_out() {
    assert_eq!(CoreType::Paper.as_str(), "Paper");
    assert_eq!(CoreType::VanillaSnapshot.as_str(), "Vanilla-Snapshot");
    assert_eq!(CoreType::PufferfishPurpur.as_str(), "Pufferfish_Purpur");
    assert_eq!(CoreType::Unknown.as_str(), "Unknown");
}

#[test]
fn plain_paths_are_judged_by_their_file_name() {
    assert_eq!(detect_core_type("/srv/a/paper-1.20.jar", None), String::from("Paper"));
    assert_eq!(file_name_of("/srv/a/paper-1.20.jar"), String::from("paper-1.20.jar"));
    assert_eq!(detect_core_type("mohist.jar", None), String::from("Mohist"));
}

#[test]
fn scripts_defer_to_the_jar_beside_them() {
    assert!(is_script_file("start.sh"));
    assert!(is_script_file("RUN.BAT"));
    assert!(!is_script_file("server.jar"));
    assert_eq!(
        detect_core_type("/srv/start.sh", Some(String::from("purpur-1.20.jar"))),
        String::from("Purpur")
    );
    assert_eq!(detect_core_type("/srv/start.sh", None), String::from("Unknown"));
}

#[test]
fn main_classes_reveal_their_core() {
    assert_eq!(
        core_type_from_main_class("io.papermc.paperclip.Main"),
        Some(CoreType::Paper)
    );
    assert_eq!(
        core_type_from_main_class("net.neoforged.serverstarterjar.Anything"),
        Some(CoreType::Neoforge)
    );
    assert_eq!(core_type_from_main_class("net.minecraft.client.Main"), Some(CoreType::Unknown));
    assert_eq!(core_type_from_main_class("com.example.Custom"), None);
}

#[test]
fn the_manifest_main_class_is_read_with_continuations() {
    let manifest = "Manifest-Version: 1.0\r\nMain-Class: io.papermc\r\n .paperclip.Main\r\n\r\n";
    assert_eq!(
        find_manifest_main_class(manifest),
        Some(String::from("io.papermc.paperclip.Main"))
    );
}

#[test]
fn manifest_keys_compare_without_case_and_blanks_do_not_count() {
    assert_eq!(
        find_manifest_main_class("MAIN-CLASS: a.b.C\n"),
        Some(String::from("a.b.C"))
    );
    assert_eq!(find_manifest_main_class("Main-Class:   \n"), None);
    assert_eq!(find_manifest_main_class("Other: x\n"), None);
    assert_eq!(find_manifest_main_class(""), None);
}

#[test]
fn only_the_first_usable_entry_counts() {
    let manifest = "Main-Class: first.Class\n\nMain-Class: second.Class\n";
    assert_eq!(find_manifest_main_class(manifest), Some(String::from("first.Class")));
}
