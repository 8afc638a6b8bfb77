use asm_parse::ast::Directive;
use asm_parse::ast::Statement;
use asm_parse::outcome::Result as Outcome;
use asm_parse::parse::function as parse_function;
use asm_parse::parse::function_body as parse_body;
use asm_parse::parse::Error;

fn lines_of(text: &str) -> Vec<String> {
    let mut lines: Vec<String> = Vec::new();
    for line in text.lines() {
        lines.push(line.to_string());
    }
    lines
}

#[test]
fn function_body() {
    let function = r#"
Lfunc_begin0:
        .file   1 "src/bar.rs"
        .loc    1 3 0
        .cfi_startproc
        push    rbp
Lcfi0:
        .cfi_def_cfa_offset 16
Lcfi1:
        .cfi_offset rbp, -16
        mov     rbp, rsp
Lcfi2:
        .cfi_def_cfa_register rbp
        xor     eax, eax
        .p2align        4, 0x90
LBB0_1:
Ltmp0:
        .loc    1 5 0 prologue_end
        movupd  xmm0, xmmword ptr [rsi + 8*rax]
:
        .section        __TEXT,__text,regular,pure_instructions
        .intel_syntax noprefix
        .globl  __ZN9lib_crate3bar9max_array17hb67fa309d9e0df23E
        .p2align        4, 0x90
"#;

    let mut lines: Vec<String> = Vec::new();
    for line in function.lines() {
        lines.push(line.to_string());
    }
    let result = asm_parse::parse::function_body(lines, "lib_crate::bar::max_array");
    println!("{:?}", result);
}

#[test]
fn file_before_loc_sets_both() {
    let lines = lines_of(
        "Lfunc_begin0:\n        .file   1 \"src/bar.rs\"\n        .loc    1 3 0\n        ret\n",
    );
    let f = parse_body(lines, "foo").unwrap();
    let file = f.file.as_ref().unwrap();
    assert_eq!(file.index, 1);
    assert_eq!(file.path, "src/bar.rs");
    let loc = f.loc.as_ref().unwrap();
    assert_eq!(loc.file_index, 1);
    assert_eq!(loc.line, 3);
    assert_eq!(loc.column, 0);
    assert_eq!(loc.flags, None);
    assert_eq!(file.index, loc.file_index);
}

#[test]
fn trailer_resolves_file_after_body() {
    let lines = lines_of(
        "_tgt:\n        .cfi_startproc\n        .loc    2 5 0 prologue_end\n        ret\n.cfi_endproc\n        .file   2 \"src/other.rs\"\n",
    );
    match parse_function(&lines, "_tgt", "_").unwrap() {
        Outcome::Found(f, table) => {
            let file = f.file.as_ref().unwrap();
            assert_eq!(file.index, 2);
            assert_eq!(file.path, "src/other.rs");
            let loc = f.loc.as_ref().unwrap();
            assert_eq!(loc.file_index, 2);
            assert_eq!(loc.line, 5);
            assert_eq!(loc.column, 0);
            assert_eq!(loc.flags, Some("prologue_end".to_string()));
            assert_eq!(table.get(&2).unwrap().path, "src/other.rs");
        },
        Outcome::NotFound(_) => panic!("function should have been found"),
    }
}

#[test]
fn no_match_lists_all_symbols() {
    let lines = lines_of("_alpha:\n        ret\n_beta:\n        ret\n");
    match parse_function(&lines, "missing", "_").unwrap() {
        Outcome::Found(_, _) => panic!("no label should match"),
        Outcome::NotFound(syms) => {
            assert_eq!(syms, vec!["_alpha".to_string(), "_beta".to_string()]);
        },
    }
}

#[test]
fn conflicting_file_binding_is_fatal() {
    let lines = lines_of("        .file   3 \"a.rs\"\n        .file   3 \"b.rs\"\n");
    match parse_function(&lines, "anything", "_") {
        Err(Error::InconsistentFileBinding { index, existing_path, new_path }) => {
            assert_eq!(index, 3);
            assert_eq!(existing_path, "a.rs");
            assert_eq!(new_path, "b.rs");
        },
        other => panic!("expected a conflicting binding error, got {:?}", other),
    }
}

#[test]
fn malformed_line_reports_offset() {
    let lines = lines_of("first\n        mov     rax, rbx\n\n        ;\n");
    match parse_body(lines, "foo") {
        Err(Error::MalformedLine { id, line_off, line }) => {
            assert_eq!(id, "foo");
            assert_eq!(line_off, 1);
            assert_eq!(line, ";");
        },
        other => panic!("expected a malformed line error, got {:?}", other),
    }
}

#[test]
fn statements_keep_line_order() {
    let lines = lines_of(
        "first\n        mov     rax, rbx ; move it\n        .p2align        4\nLBB0_1:\n",
    );
    let f = parse_body(lines, "foo").unwrap();
    assert_eq!(f.statements.len(), 4);
    match &f.statements[0] {
        Statement::Comment(c) => assert_eq!(c.text, "move it"),
        other => panic!("expected a comment first, got {:?}", other),
    }
    match &f.statements[1] {
        Statement::Instruction(i) => assert_eq!(i.text, "mov     rax, rbx"),
        other => panic!("expected the commented instruction, got {:?}", other),
    }
    match &f.statements[2] {
        Statement::Directive(Directive::Other(raw)) => assert_eq!(raw, ".p2align        4"),
        other => panic!("expected a generic directive, got {:?}", other),
    }
    match &f.statements[3] {
        Statement::Label(l) => {
            assert_eq!(l.id, "LBB0_1");
            assert!(l.loc.is_none());
        },
        other => panic!("expected a label, got {:?}", other),
    }
}

#[test]
fn first_location_is_kept_while_context_moves() {
    let lines = lines_of("first\n        .loc    1 2 0\n        .loc    1 9 9\n        ret\n");
    let f = parse_body(lines, "foo").unwrap();
    let loc = f.loc.as_ref().unwrap();
    assert_eq!((loc.file_index, loc.line, loc.column), (1, 2, 0));
    match &f.statements[2] {
        Statement::Instruction(i) => {
            let snap = i.loc.as_ref().unwrap();
            assert_eq!((snap.file_index, snap.line, snap.column), (1, 9, 9));
        },
        other => panic!("expected an instruction, got {:?}", other),
    }
}

#[test]
fn location_contradicting_file_is_fatal() {
    let lines = lines_of("first\n        .file   1 \"a.rs\"\n        .loc    2 7 0\n");
    match parse_body(lines, "foo") {
        Err(Error::InconsistentLocationBinding { id, file_index, loc_file_index }) => {
            assert_eq!(id, "foo");
            assert_eq!(file_index, 1);
            assert_eq!(loc_file_index, 2);
        },
        other => panic!("expected an inconsistent location error, got {:?}", other),
    }
}

#[test]
fn unresolved_location_file_is_fatal() {
    let lines = lines_of(
        "_t:\n        .cfi_startproc\n        .loc    4 1 0\n        ret\n.cfi_endproc\n",
    );
    match parse_function(&lines, "_t", "_") {
        Err(Error::UnresolvedLocationFile { id, file_index }) => {
            assert_eq!(id, "_t");
            assert_eq!(file_index, 4);
        },
        other => panic!("expected an unresolved location error, got {:?}", other),
    }
}

#[test]
fn mangled_label_is_demangled_for_matching() {
    let lines = lines_of(
        "__ZN9lib_crate3bar9max_array17hb67fa309d9e0df23E:\n        .cfi_startproc\n        ret\n.cfi_endproc\n",
    );
    match parse_function(&lines, "lib_crate::bar::max_array", "_").unwrap() {
        Outcome::Found(f, _) => {
            assert_eq!(f.id, "lib_crate::bar::max_array");
            assert!(f.file.is_none());
            assert!(f.loc.is_none());
        },
        Outcome::NotFound(syms) => {
            panic!("demangled label should match; saw {:?}", syms);
        },
    }
}

#[test]
fn body_file_directives_fill_the_table() {
    let lines = lines_of(
        "_go:\n        .cfi_startproc\n        .file   1 \"src/main.rs\"\n        .loc    1 3 0\n        .file   7 \"src/inline.rs\"\n        .loc    7 9 1\n        ret\n.cfi_endproc\n",
    );
    match parse_function(&lines, "_go", "_").unwrap() {
        Outcome::Found(f, table) => {
            assert_eq!(f.file.as_ref().unwrap().index, 1);
            assert_eq!(f.loc.as_ref().unwrap().file_index, 1);
            assert_eq!(table.get(&1).unwrap().path, "src/main.rs");
            assert_eq!(table.get(&7).unwrap().path, "src/inline.rs");
        },
        Outcome::NotFound(_) => panic!("function should have been found"),
    }
}

#[test]
fn empty_unit_is_not_found() {
    let lines: Vec<String> = Vec::new();
    match parse_function(&lines, "anything", "_").unwrap() {
        Outcome::Found(_, _) => panic!("nothing to find in an empty unit"),
        Outcome::NotFound(syms) => assert!(syms.is_empty()),
    }
}

#[test]
fn numerals_are_parsed_exactly() {
    let lines = lines_of("first\n        .file   12 \"x.rs\"\n        .loc    12 34 56\n");
    let f = parse_body(lines, "foo").unwrap();
    let file = f.file.as_ref().unwrap();
    assert_eq!(file.index, 12);
    let loc = f.loc.as_ref().unwrap();
    assert_eq!((loc.file_index, loc.line, loc.column), (12, 34, 56));
}

#[test]
fn malformed_file_directive_is_generic() {
    let lines = lines_of("first\n        .file   x \"y.rs\"\n");
    let f = parse_body(lines, "foo").unwrap();
    assert!(f.file.is_none());
    match &f.statements[0] {
        Statement::Directive(Directive::Other(raw)) => {
            assert_eq!(raw, ".file   x \"y.rs\"");
        },
        other => panic!("expected a generic directive, got {:?}", other),
    }
}
