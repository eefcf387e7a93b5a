use sea_lantern::server_jar::pick_server_jar;

fn names(list: &[&str]) -> Vec<String> {
    list.iter().map(|s| String::from(*s)).collect()
}

#[test]
fn well_known_names_win_in_order() {
    let files = names(&["zzz.jar", "forge.jar", "server.jar"]);
    assert_eq!(pick_server_jar(&files), Some(String::from("server.jar")));
    let files = names(&["zzz.jar", "forge.jar"]);
    assert_eq!(pick_server_jar(&files), Some(String::from("forge.jar")));
}

#[test]
fn a_lone_jar_is_taken_as_it_is() {
    let files = names(&["readme.txt", "thing.jar"]);
    assert_eq!(pick_server_jar(&files), Some(String::from("thing.jar")));
}

#[test]
fn keywords_break_ties_between_jars() {
    let files = names(&["a.jar", "my-paper-build.jar", "b.jar"]);
    assert_eq!(pick_server_jar(&files), Some(String::from("my-paper-build.jar")));
    let files = names(&["a.jar", "b.jar"]);
    assert_eq!(pick_server_jar(&files), Some(String::from("a.jar")));
}

#[test]
fn no_jar_means_no_pick() {
    assert_eq!(pick_server_jar(&names(&["readme.txt", "run.sh"])), None);
    assert_eq!(pick_server_jar(&names(&[])), None);
}
