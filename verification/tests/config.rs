use stm::config::{
    Config, Manager, ManagerList, Probe, Tool, ToolList, APP_DIR_NAME, CONFIG_FILE_NAME,
    CONFIG_PATH_VARIABLE,
};
use stm::error::StmError;

fn create_config() -> Config {
    let managers = ManagerList(vec![
        Manager::new("arch", "yay -Sy {{packages}}", "yay -Syu"),
        Manager::new(
            "cargo",
            "cargo install --force {{packages}}",
            "cargo install --force {{packages}}",
        ),
        Manager::new("misc", "misc.sh install", "misc.sh update"),
    ]);
    let tools = ToolList(vec![
        Tool::new_binary("alacritty", "alacritty", "arch"),
        Tool::new_path(
            "ttf-fira-code",
            "/usr/share/fonts/TTF/FiraCode-Regular.ttf",
            "arch",
        ),
        Tool::new_path("cargo-watch", "$CARGO_HOME/bin/cargo-watch", "cargo"),
    ]);
    Config { managers, tools }
}

#[test]
fn it_has_a_manager_list_with_names() {
    let c = create_config();

    let want = vec!["arch", "cargo", "misc"];
    assert_eq!(want, c.managers.names());
}

#[test]
fn it_finds_a_manager_by_name() {
    let c = create_config();

    let want = c.managers.0.first();
    assert_eq!(want, c.find_manager("arch"));

    let want = c.managers.0.last();
    assert_eq!(want, c.find_manager("misc"));

    let want = None;
    assert_eq!(want, c.find_manager("rust"));
}

#[test]
fn it_finds_tools_by_manager() {
    let c = create_config();

    let want: Vec<&Tool> = c.tools.0.iter().filter(|t| t.manager == "arch").collect();
    assert_eq!(want, c.tools.filter_by_manager("arch"));

    let want: Vec<&Tool> = vec![];
    assert_eq!(want, c.tools.filter_by_manager("misc"));

    let want: Vec<&Tool> = vec![];
    assert_eq!(want, c.tools.filter_by_manager("rust"));
}

#[test]
fn the_configuration_lies_under_the_name_of_the_program() {
    assert_eq!(APP_DIR_NAME, "stm");
    assert_eq!(CONFIG_FILE_NAME, "config.json");
    assert_eq!(CONFIG_PATH_VARIABLE, "STM_CONFIG_PATH");
}

#[test]
fn manager_new_keeps_its_three_texts() {
    let m = Manager::new("arch", "yay -Sy {{packages}}", "yay -Syu");
    assert_eq!(m.name, "arch");
    assert_eq!(m.install_command, "yay -Sy {{packages}}");
    assert_eq!(m.update_command, "yay -Syu");
}

#[test]
fn tool_new_sets_both_detection_fields() {
    let t = Tool::new("pkg", Some("bin"), Some("/p"), "arch");
    assert_eq!(t.package, "pkg");
    assert_eq!(t.binary, Some(String::from("bin")));
    assert_eq!(t.path, Some(String::from("/p")));
    assert_eq!(t.manager, "arch");

    let t = Tool::new("pkg", None, None, "arch");
    assert_eq!(t.binary, Some(String::new()));
    assert_eq!(t.path, Some(String::new()));
}

#[test]
fn tool_new_binary_leaves_the_path_empty() {
    let t = Tool::new_binary("alacritty", "alacritty", "arch");
    assert_eq!(t.package, "alacritty");
    assert_eq!(t.binary, Some(String::from("alacritty")));
    assert_eq!(t.path, Some(String::new()));
    assert_eq!(t.manager, "arch");
}

#[test]
fn tool_new_path_leaves_the_binary_empty() {
    let t = Tool::new_path("cargo-watch", "$CARGO_HOME/bin/cargo-watch", "cargo");
    assert_eq!(t.package, "cargo-watch");
    assert_eq!(t.binary, Some(String::new()));
    assert_eq!(t.path, Some(String::from("$CARGO_HOME/bin/cargo-watch")));
    assert_eq!(t.manager, "cargo");
}

#[test]
fn names_keep_the_order_of_declaration() {
    let c = Config {
        managers: ManagerList(vec![
            Manager::new("zeta", "", ""),
            Manager::new("alpha", "", ""),
            Manager::new("zeta", "", ""),
        ]),
        tools: ToolList(vec![]),
    };
    assert_eq!(vec!["zeta", "alpha", "zeta"], c.managers.names());

    let empty = ManagerList(vec![]);
    assert_eq!(Vec::<&String>::new(), empty.names());
}

#[test]
fn find_manager_is_exact_and_takes_the_first() {
    let c = Config {
        managers: ManagerList(vec![
            Manager::new("arch", "first", "u1"),
            Manager::new("Arch", "capital", "u2"),
            Manager::new("arch", "second", "u3"),
        ]),
        tools: ToolList(vec![]),
    };
    assert_eq!(c.find_manager("arch").unwrap().install_command, "first");
    assert_eq!(c.find_manager("Arch").unwrap().install_command, "capital");
    assert_eq!(None, c.find_manager("ARCH"));
    assert_eq!(None, c.find_manager("arc"));
    assert_eq!(None, c.find_manager("arch "));
    assert_eq!(None, c.find_manager(""));
}

#[test]
fn find_manager_tells_names_beyond_ascii_apart() {
    let c = Config {
        managers: ManagerList(vec![
            Manager::new("caf\u{e9}", "one", ""),
            Manager::new("cafe", "two", ""),
        ]),
        tools: ToolList(vec![]),
    };
    assert_eq!(c.find_manager("caf\u{e9}").unwrap().install_command, "one");
    assert_eq!(c.find_manager("cafe").unwrap().install_command, "two");
    assert_eq!(None, c.find_manager("caf\u{e8}"));
}

#[test]
fn filter_by_manager_returns_both_arch_tools_in_order() {
    let tools = ToolList(vec![
        Tool::new_binary("alacritty", "alacritty", "arch"),
        Tool::new_path(
            "ttf-fira-code",
            "/usr/share/fonts/TTF/FiraCode-Regular.ttf",
            "arch",
        ),
    ]);
    let arch = tools.filter_by_manager("arch");
    assert_eq!(arch.len(), 2);
    assert_eq!(arch[0].package, "alacritty");
    assert_eq!(arch[1].package, "ttf-fira-code");
    assert_eq!(arch, vec![&tools.0[0], &tools.0[1]]);

    assert_eq!(tools.filter_by_manager("cargo"), Vec::<&Tool>::new());
}

#[test]
fn filter_by_manager_keeps_the_order_between_other_tools() {
    let tools = ToolList(vec![
        Tool::new_binary("a", "a", "x"),
        Tool::new_binary("b", "b", "y"),
        Tool::new_binary("c", "c", "x"),
        Tool::new_binary("a", "a", "x"),
        Tool::new_binary("d", "d", "X"),
    ]);
    let of_x: Vec<&str> = tools
        .filter_by_manager("x")
        .iter()
        .map(|t| t.package.as_str())
        .collect();
    assert_eq!(of_x, vec!["a", "c", "a"]);
    let of_y = tools.filter_by_manager("y");
    assert_eq!(of_y, vec![&tools.0[1]]);
    assert!(tools.filter_by_manager("z").is_empty());
    assert!(ToolList(vec![]).filter_by_manager("x").is_empty());
}

#[test]
fn probe_prefers_the_binary_whatever_the_path() {
    let both = Tool::new("pkg", Some("bin"), Some("/some/path"), "m");
    assert_eq!(both.probe(), Probe::Binary("bin"));

    let binary_only = Tool::new_binary("pkg", "bin", "m");
    assert_eq!(binary_only.probe(), Probe::Binary("bin"));

    let no_path = Tool {
        package: String::from("pkg"),
        binary: Some(String::from("bin")),
        path: None,
        manager: String::from("m"),
    };
    assert_eq!(no_path.probe(), Probe::Binary("bin"));
}

#[test]
fn probe_falls_back_to_the_path() {
    let empty_binary = Tool::new_path("pkg", "/some/path", "m");
    assert_eq!(empty_binary.probe(), Probe::Path("/some/path"));

    let absent_binary = Tool {
        package: String::from("pkg"),
        binary: None,
        path: Some(String::from("/some/path")),
        manager: String::from("m"),
    };
    assert_eq!(absent_binary.probe(), Probe::Path("/some/path"));
}

#[test]
fn probe_is_nothing_where_neither_field_is_set() {
    let empty = Tool::new("pkg", None, None, "m");
    assert_eq!(empty.probe(), Probe::Nothing);

    let absent = Tool {
        package: String::from("pkg"),
        binary: None,
        path: None,
        manager: String::from("m"),
    };
    assert_eq!(absent.probe(), Probe::Nothing);
}

#[test]
fn is_installed_follows_the_answer_of_the_probe() {
    let by_binary = Tool::new("pkg", Some("bin"), Some("/p"), "m");
    assert!(by_binary.is_installed(true));
    assert!(!by_binary.is_installed(false));

    let by_path = Tool::new_path("pkg", "/p", "m");
    assert!(by_path.is_installed(true));
    assert!(!by_path.is_installed(false));
}

#[test]
fn is_installed_is_false_with_nothing_to_look_for() {
    let t = Tool::new("pkg", None, None, "m");
    assert!(!t.is_installed(true));
    assert!(!t.is_installed(false));
}

#[test]
fn validate_accepts_distinct_names() {
    assert_eq!(create_config().validate(), Ok(()));
    let empty = Config {
        managers: ManagerList(vec![]),
        tools: ToolList(vec![Tool::new_binary("a", "a", "nobody")]),
    };
    assert_eq!(empty.validate(), Ok(()));
}

#[test]
fn validate_reports_a_manager_without_a_name() {
    let c = Config {
        managers: ManagerList(vec![
            Manager::new("arch", "", ""),
            Manager::new("", "", ""),
        ]),
        tools: ToolList(vec![]),
    };
    assert_eq!(
        c.validate(),
        Err(StmError::ConfigParse(String::from("manager without a name")))
    );
}

#[test]
fn validate_reports_the_first_duplicate_name() {
    let c = Config {
        managers: ManagerList(vec![
            Manager::new("arch", "", ""),
            Manager::new("cargo", "", ""),
            Manager::new("misc", "", ""),
            Manager::new("cargo", "", ""),
            Manager::new("arch", "", ""),
        ]),
        tools: ToolList(vec![]),
    };
    assert_eq!(
        c.validate(),
        Err(StmError::ConfigParse(String::from("duplicate manager cargo")))
    );
}

#[test]
fn validate_reports_the_fault_that_stands_first() {
    let c = Config {
        managers: ManagerList(vec![
            Manager::new("arch", "", ""),
            Manager::new("arch", "", ""),
            Manager::new("", "", ""),
        ]),
        tools: ToolList(vec![]),
    };
    assert_eq!(
        c.validate(),
        Err(StmError::ConfigParse(String::from("duplicate manager arch")))
    );
    let c = Config {
        managers: ManagerList(vec![
            Manager::new("", "", ""),
            Manager::new("", "", ""),
        ]),
        tools: ToolList(vec![]),
    };
    assert_eq!(
        c.validate(),
        Err(StmError::ConfigParse(String::from("manager without a name")))
    );
}
