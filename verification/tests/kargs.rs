use lib::lang::kargs::{arg_type, parse_args, ArgFlags, ArgType};

fn args(list: &[&str]) -> Vec<String> {
    list.iter().map(|s| s.to_string()).collect()
}

#[test]
fn no_arguments_at_all_is_an_error() {
    assert_eq!(parse_args(Vec::new()).unwrap_err(), "Cannot load 0th arg");
}

#[test]
fn the_program_name_comes_first() {
    let k = parse_args(args(&["kscript"])).unwrap();
    assert_eq!(k.zero, "kscript");
    assert!(k.file.is_none());
    assert!(k.flags.is_empty());
}

#[test]
fn a_file_to_run() {
    let k = parse_args(args(&["kscript", "fib.ks"])).unwrap();
    assert_eq!(k.file.as_deref(), Some("fib.ks"));
}

#[test]
fn the_last_file_wins() {
    let k = parse_args(args(&["kscript", "a.ks", "b.ks"])).unwrap();
    assert_eq!(k.file.as_deref(), Some("b.ks"));
}

#[test]
fn documented_debug_and_help_flags() {
    let k = parse_args(args(&["kscript", "-d", "--debug", "-h", "--help", "main.ks"])).unwrap();
    assert_eq!(k.flags.len(), 4);
    assert!(matches!(k.flags[0], ArgFlags::Debug));
    assert!(matches!(k.flags[1], ArgFlags::Debug));
    assert!(matches!(k.flags[2], ArgFlags::Help));
    assert!(matches!(k.flags[3], ArgFlags::Help));
    assert_eq!(k.file.as_deref(), Some("main.ks"));
}

#[test]
fn a_debug_file_takes_the_next_argument() {
    let k = parse_args(args(&["kscript", "-df", "log.txt", "main.ks"])).unwrap();
    assert_eq!(k.flags.len(), 1);
    assert!(matches!(&k.flags[0], ArgFlags::DebugFile(f) if f == "log.txt"));
    assert_eq!(k.file.as_deref(), Some("main.ks"));
    let k = parse_args(args(&["kscript", "--debug-file", "out"])).unwrap();
    assert!(matches!(&k.flags[0], ArgFlags::DebugFile(f) if f == "out"));
    assert!(k.file.is_none());
}

#[test]
fn a_debug_file_flag_without_a_file_is_dropped() {
    let k = parse_args(args(&["kscript", "-df"])).unwrap();
    assert!(k.flags.is_empty());
}

#[test]
fn key_value_flags() {
    let k = parse_args(args(&["kscript", "-debug", "-debug=trace.log", "-help", "-other=1"])).unwrap();
    assert_eq!(k.flags.len(), 3);
    assert!(matches!(k.flags[0], ArgFlags::Debug));
    assert!(matches!(&k.flags[1], ArgFlags::DebugFile(f) if f == "trace.log"));
    assert!(matches!(k.flags[2], ArgFlags::Help));
}

#[test]
fn an_argument_with_a_dash_inside_is_a_flag() {
    let k = parse_args(args(&["kscript", "my-file.ks"])).unwrap();
    assert!(k.file.is_none());
    assert!(k.flags.is_empty());
}

#[test]
fn classifying_single_arguments() {
    assert!(arg_type("").is_none());
    assert!(matches!(arg_type("x.ks"), Some(ArgType::File)));
    match arg_type("ab-key=v=w") {
        Some(ArgType::Flag(k, v)) => {
            assert_eq!(k, "key");
            assert_eq!(v, "v=w");
        }
        _ => panic!("expected a flag"),
    }
    match arg_type("-") {
        Some(ArgType::Flag(k, v)) => {
            assert_eq!(k, "");
            assert_eq!(v, "");
        }
        _ => panic!("expected a flag"),
    }
}
