use nvidiahelper::commands::max_arity;
use nvidiahelper::detect::{
    display_from_environment, xauthority_from_environment, xauthority_from_processes,
};
use nvidiahelper::executor::query_fields;
use nvidiahelper::text::{find_text, split_text, parse_bool, parse_i32, parse_usize, text_eq};
use nvidiahelper::{
    check_alias, cmd_exists, get_smi_ret_message, new_command, query_gpu_field, standard_commands,
    Environment,
};

#[test]
fn numerals_read_like_std() {
    for t in ["0", "+7", "-7", "2147483647", "-2147483648", "2147483648", "-2147483649", "", "-", "+", "1a", "007", " 1", "+-1"] {
        assert_eq!(parse_i32(t), t.parse::<i32>().ok(), "{}", t);
    }
    for t in ["0", "+7", "-7", "18446744073709551615", "18446744073709551616", "", "+", "12x", "000042"] {
        assert_eq!(parse_usize(t), t.parse::<usize>().ok(), "{}", t);
    }
    for t in ["true", "false", "True", "maybe", "", "truex"] {
        assert_eq!(parse_bool(t), t.parse::<bool>().ok(), "{}", t);
    }
    assert!(text_eq("fan", "fan"));
    assert!(!text_eq("fan", "fans"));
}

#[test]
fn lookup_by_name_then_alias() {
    let commands = standard_commands();
    assert_eq!(commands.len(), 13);
    let clock = cmd_exists(&"clock".to_string(), &commands).unwrap();
    assert_eq!(commands[clock].name, "clock");
    assert_eq!(cmd_exists(&"lgc".to_string(), &commands), Some(clock));
    assert_eq!(check_alias(&"lgc".to_string(), &commands), Some(clock));
    assert_eq!(check_alias(&"clock".to_string(), &commands), None);
    assert_eq!(cmd_exists(&"nothing".to_string(), &commands), None);
    let debug = cmd_exists(&"debug".to_string(), &commands).unwrap();
    assert_eq!(commands[debug].name, "debug");
    let fan = cmd_exists(&"fan".to_string(), &commands).unwrap();
    assert_eq!(max_arity(&commands[fan]), 2);
    assert_eq!(max_arity(&new_command("x".to_string(), vec![], vec![])), 0);
}

#[test]
fn commands_compare_by_all_fields() {
    let a = new_command("fan".to_string(), vec![], vec![1, 2]);
    let b = new_command("fan".to_string(), vec![], vec![1, 2]);
    let c = new_command("fan".to_string(), vec![], vec![1]);
    let d = new_command("fan".to_string(), vec!["f".to_string()], vec![1, 2]);
    assert!(a == b);
    assert!(a != c);
    assert!(a != d);
}

#[test]
fn status_messages() {
    assert_eq!(get_smi_ret_message(0), "Successfully executed");
    assert_eq!(get_smi_ret_message(4), "Insufficient permission");
    assert_eq!(get_smi_ret_message(255), "Driver or other error related to GPU");
    assert_eq!(get_smi_ret_message(7), "There was an unknown error");
    assert_eq!(get_smi_ret_message(-1), "There was an unknown error");
}

#[test]
fn query_falls_back_to_unknown() {
    assert_eq!(query_gpu_field(None), "Unknown");
    assert_eq!(query_gpu_field(Some("RTX, 1500 MHz\n".to_string())), "RTX, 1500 MHz\n");
}

#[test]
fn default_environment() {
    let env = Environment::default();
    assert_eq!(env.display, ":0");
    assert_eq!(env.xauthority, "/run/user/1000/gdm/Xauthority");
    assert!(!env.debug);
    let copy = env.snapshot();
    assert_eq!(copy.display, ":0");
}

#[test]
fn detection_reads_environment_lines() {
    assert_eq!(display_from_environment("DISPLAY=:1\n"), Some(":1".to_string()));
    assert_eq!(display_from_environment("WAYLAND=1\n"), None);
    assert_eq!(
        xauthority_from_environment("XAUTHORITY=/run/user/1000/.mutter-Xwaylandauth.ABC\n"),
        Some("/run/user/1000/.mutter-Xwaylandauth.ABC".to_string())
    );
    assert_eq!(xauthority_from_environment(""), None);
}

#[test]
fn detection_reads_process_listing() {
    let ps = "  1234 tty2 Sl+ 0:00 /usr/lib/Xorg vt2 -displayfd 3 -auth /run/user/42/gdm/Xauthority -nolisten tcp\n";
    assert_eq!(xauthority_from_processes(ps), Some("/run/user/42/gdm/Xauthority".to_string()));
    assert_eq!(xauthority_from_processes("/gdm/Xauthority"), None);
    assert_eq!(xauthority_from_processes("nothing here"), None);
    assert_eq!(find_text("abcabc", "ca"), Some(2));
    assert_eq!(find_text("abc", "x"), None);
}

#[test]
fn query_answer_splits_like_std() {
    for raw in ["NVIDIA GeForce RTX 3080, 1500 MHz, 9501 MHz\n", "", "a, ", ", , b", "no separators", "x,y, z"] {
        let expected: Vec<String> = raw.split(", ").map(|p| p.to_string()).collect();
        assert_eq!(query_fields(raw), expected, "{:?}", raw);
    }
    assert_eq!(split_text("a--b----c", "--"), vec!["a", "b", "", "c"]);
}
