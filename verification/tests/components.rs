//! The configuration parser, the global store, the call frames and the
//! human-readable dump, each on concrete values.

use luaca::call_frame::CallFrame;
use luaca::config::Vmconfig;
use luaca::function::Function;
use luaca::global_environment::{EnvironmentError, GlobalEnvironment};
use luaca::instruction::Instruction;
use luaca::local_variable::LocalVariable;
use luaca::metadata::Metadata;
use luaca::object::Value;

fn args(list: &[&str]) -> Vec<String> {
    list.iter().map(|s| s.to_string()).collect()
}

#[test]
fn config_defaults() {
    let cfg = Vmconfig::build(args(&["vm", "prog.out"])).unwrap();
    assert!(!cfg.get_dump());
    assert_eq!(cfg.get_path(), "prog.out");
    assert_eq!(cfg.get_ver(), 0x51);
}

#[test]
fn config_flags_and_version() {
    let cfg = Vmconfig::build(args(&["vm", "-d", "ver=5.3", "prog.out"])).unwrap();
    assert!(cfg.get_dump());
    assert_eq!(cfg.get_ver(), 0x53);
    assert_eq!(cfg.get_path(), "prog.out");
    let cfg = Vmconfig::build(args(&["vm", "-dump", "prog.out", "ver=5.1"])).unwrap();
    assert!(cfg.get_dump());
    assert_eq!(cfg.get_ver(), 0x51);
}

#[test]
fn config_refuses_two_paths() {
    assert!(Vmconfig::build(args(&["vm", "a.out", "b.out"])).is_err());
}

#[test]
fn config_second_dump_flag_is_a_path() {
    // once the flag is set, another one falls through to the path slot
    let cfg = Vmconfig::build(args(&["vm", "-d", "-dump"])).unwrap();
    assert!(cfg.get_dump());
    assert_eq!(cfg.get_path(), "-dump");
    assert!(Vmconfig::build(args(&["vm", "-d", "-dump", "x.out"])).is_err());
}

#[test]
fn globals_roundtrip() {
    let mut env = GlobalEnvironment::new();
    let key = b"answer".to_vec();
    env.insert_global(&key, Value::Number(42.0f64.to_bits()));
    let got = env.get_global(&key).expect("bound global must be found");
    assert_eq!(got, Value::Number(42.0f64.to_bits()));
    env.insert_global(&key, Value::Boolean(true));
    let got = env.get_global(&key).expect("bound global must be found");
    assert_eq!(got, Value::Boolean(true));
}

#[test]
fn globals_seed_print_and_report_missing_names() {
    let env = GlobalEnvironment::new();
    assert!(env.get_global(&b"print".to_vec()).is_ok());
    let err = env.get_global(&b"nosuch".to_vec()).expect_err("must miss");
    let EnvironmentError::GlobalNotFound { sym } = err;
    assert_eq!(sym, b"nosuch".to_vec());
}

#[test]
fn environment_error_message() {
    let err = EnvironmentError::GlobalNotFound {
        sym: b"x".to_vec(),
    };
    assert_eq!(err.message(), b"Symbol x not found".to_vec());
}

#[test]
fn call_frames_track_the_top() {
    let mut frame = CallFrame::with_capacity(4);
    assert_eq!(frame.len(), 0);
    assert_eq!(frame.capacity(), 4);
    frame.store(2, Value::Number(1.0f64.to_bits()));
    assert_eq!(frame.len(), 3);
    frame.store(0, Value::Boolean(true));
    assert_eq!(frame.len(), 3);
    assert_eq!(frame.load(2), Value::Number(1.0f64.to_bits()));
    frame.move_register(1, 2);
    assert_eq!(frame.load(1), Value::Number(1.0f64.to_bits()));
    assert_eq!(frame.len(), 3);
    frame.set_length(1);
    assert_eq!(frame.len(), 1);
    assert_eq!(frame.load(0), Value::Boolean(true));
}

#[test]
fn metadata_text_lists_the_fields() {
    let m = Metadata {
        version: 0x51,
        format: 0,
        bigendian: false,
        i_size: 4,
        u_size: 8,
        instr_size: 4,
        number_size: 8,
        int_flag: false,
    };
    let text = String::from_utf8(m.text()).unwrap();
    assert_eq!(
        text,
        "Metadata:\n\tVersion         : 81\n\tFormat          : 0\n\tBigendian       : false\n\tInteger Size    : 4\n\tUnsigned Size   : 8\n\tInstruction Size: 4\n\tNumber Size     : 8\n\tInteger Flag    : false\n"
    );
}

#[test]
fn function_dump_lists_code_and_constants() {
    let f = Function {
        name: b"main".to_vec(),
        first_line: 1,
        last_line: 2,
        up_values: 0,
        args: 0,
        vargs: 0,
        stack: 2,
        instr_list: vec![Instruction::LoadK(0, 0), Instruction::Return(0, 2, 0)],
        const_list: vec![luaca::constant::Constant::Number(42.0f64.to_bits())],
        func_list: vec![],
        lines_list: vec![1, 2],
        local_list: vec![LocalVariable::new(b"x".to_vec(), 0, 1)],
        upvalues_list: vec![],
        identifier: 0,
    };
    let text = String::from_utf8(f.display_function(0)).unwrap();
    assert!(text.starts_with("Function main: {\n"));
    assert!(text.contains("\tFirst Line: 1\n"));
    assert!(text.contains("\tStack     : 2\n"));
    assert!(text.contains("\t\tLoadK     : [A: 0, B: 0]\n"));
    assert!(text.contains("\t\tReturn    : [A: 0, B: 2, C: 0]\n"));
    assert!(text.contains("\t\tNumber: 42\n"));
    assert!(text.contains("\tLines : [1, 2, ]\n"));
    assert!(text.contains("\t\tx { scope: 0 - 1 }\n"));
    assert!(text.ends_with("}\n"));
}

#[test]
fn ids_are_assigned_in_preorder() {
    let leaf = |name: &[u8]| Function {
        name: name.to_vec(),
        first_line: 0,
        last_line: 0,
        up_values: 0,
        args: 0,
        vargs: 0,
        stack: 2,
        instr_list: vec![Instruction::Return(0, 1, 0)],
        const_list: vec![],
        func_list: vec![],
        lines_list: vec![],
        local_list: vec![],
        upvalues_list: vec![],
        identifier: 0,
    };
    let mut mid = leaf(b"mid");
    mid.func_list = vec![leaf(b"a"), leaf(b"b")];
    let mut root = leaf(b"root");
    root.func_list = vec![mid, leaf(b"c")];
    let (root, top) = root.assign_upval_id();
    assert_eq!(top, 4);
    assert_eq!(root.identifier, 0);
    assert_eq!(root.func_list[0].identifier, 1);
    assert_eq!(root.func_list[0].func_list[0].identifier, 2);
    assert_eq!(root.func_list[0].func_list[1].identifier, 3);
    assert_eq!(root.func_list[1].identifier, 4);
}
