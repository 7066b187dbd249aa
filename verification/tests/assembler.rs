use kap16::assembler::{Assembler, Failure};
use kap16::inst::ParseInstructionError;
use kap16::line::{Line, Source};
use kap16::resolve::{relocate, relocation};
use kap16::scope::Scope;
use kap16::symbols::SymbolTable;
use kap16::unit::{AsmError, Unit, UnitError, VerboseError};

fn lines(text: &[&str]) -> Vec<Line> {
    text.iter()
        .enumerate()
        .map(|(i, t)| Line::new(i, t.to_string()))
        .filter(|l| !l.tokens.is_empty())
        .collect()
}

fn texts(text: &[&str]) -> Vec<String> {
    text.iter().map(|t| t.to_string()).collect()
}

fn tokens(line: &Line) -> Vec<&str> {
    line.tokens.iter().map(|t| t.as_str()).collect()
}

#[test]
fn line_new_tokenizes() {
    let line = Line::new(7, "add r1, r2 ; sum".to_string());
    assert_eq!(line.number, 7);
    assert_eq!(line.text, "add r1, r2 ; sum");
    assert_eq!(tokens(&line), vec!["add", "r1", ",", "r2"]);
    let line = Line::new(0, "   ; nothing".to_string());
    assert!(line.tokens.is_empty());
    let copy = Line::new(3, "b x".to_string()).duplicate();
    assert_eq!((copy.number, copy.text.as_str(), tokens(&copy)), (3, "b x", vec!["b", "x"]));
}

#[test]
fn scope_new_builds_the_tree() {
    let scope = Scope::new(lines(&[
        "start:",
        "add r0, r1",
        ".begin",
        "inner:",
        "sub r0, r1",
        ".func",
        "mul r0, r1",
        ".end",
        "tail:",
        ".end",
        "after:",
        "xor r0, r1",
        "end:",
    ]));
    assert_eq!(scope.source.len(), 3);
    assert_eq!(scope.symbols.get("start"), Some(0));
    assert_eq!(scope.symbols.get("after"), Some(2));
    assert_eq!(scope.symbols.get("end"), Some(3));
    assert_eq!(scope.symbols.get("inner"), None);
    assert!(matches!(scope.source[0], Source::Line(_)));
    match &scope.source[1] {
        Source::Scope(outer) => {
            assert_eq!(outer.source.len(), 2);
            assert_eq!(outer.symbols.get("inner"), Some(0));
            assert_eq!(outer.symbols.get("tail"), Some(2));
            match &outer.source[1] {
                Source::Scope(func) => {
                    assert_eq!(func.source.len(), 1);
                    assert_eq!(func.symbols.get("inner"), None);
                }
                _ => panic!(),
            }
        }
        _ => panic!(),
    }
    assert!(matches!(scope.source[2], Source::Line(_)));
}

#[test]
fn scope_new_label_redefined_takes_the_later_place() {
    let scope = Scope::new(lines(&["x:", "add r0, r1", "x:", "add r0, r1"]));
    assert_eq!(scope.symbols.get("x"), Some(1));
}

#[test]
fn scope_new_stops_at_an_end_without_begin() {
    let scope = Scope::new(lines(&["add r0, r1", ".end", "sub r0, r1", "x:"]));
    assert_eq!(scope.source.len(), 1);
    assert_eq!(scope.symbols.get("x"), None);
}

#[test]
fn scope_new_closes_open_scopes_at_the_end_of_the_file() {
    let scope = Scope::new(lines(&["add r0, r1", ".begin", "sub r0, r1", ".begin", "mul r0, r1"]));
    assert_eq!(scope.source.len(), 2);
    let flat = scope.flatten();
    assert_eq!(flat.len(), 3);
    assert_eq!(flat.iter().map(|l| l.number).collect::<Vec<_>>(), vec![0, 2, 4]);
}

#[test]
fn flatten_keeps_order_and_numbers() {
    let scope = Scope::new(lines(&[
        "add r0, r1",
        "",
        ".begin",
        "sub r0, r1",
        ".begin",
        "mul r0, r1",
        ".end",
        "xor r0, r1",
        ".end",
        "orr r0, r1",
    ]));
    let flat = scope.flatten();
    let seen: Vec<(usize, &str)> = flat.iter().map(|l| (l.number, l.tokens[0].as_str())).collect();
    assert_eq!(seen, vec![(0, "add"), (3, "sub"), (5, "mul"), (7, "xor"), (9, "orr")]);
}

#[test]
fn relocation_is_a_word_scaled_displacement_past_the_line() {
    assert_eq!(relocation(4, 0), "0x6");
    assert_eq!(relocation(1, 0), "0x0");
    assert_eq!(relocation(0, 0), "0xfffe");
    assert_eq!(relocation(0, 3), "0xfff8");
    assert_eq!(relocation(100, 0), "0xc6");
    assert_eq!(relocation(0x4000, 0), "0x7ffe");
    assert_eq!(relocation(0x4001, 0), "0x7fff");
    assert_eq!(relocation(usize::MAX, 0), "0x7fff");
    assert_eq!(relocation(0, 0x3fff), "0x8000");
    assert_eq!(relocation(0, usize::MAX), "0x8000");
}

#[test]
fn relocate_replaces_every_label_token() {
    let mut env = SymbolTable::new();
    env.insert("loop".to_string(), 2);
    env.insert("add".to_string(), 9);
    let out = relocate(&texts(&["add", "loop", ",", "other", "loop"]), &env, 4);
    assert_eq!(out, texts(&["0x8", "0xfffa", ",", "other", "0xfffa"]));
}

#[test]
fn symbol_table_later_definition_wins() {
    let mut outer = SymbolTable::new();
    outer.insert("a".to_string(), 1);
    outer.insert("b".to_string(), 2);
    let mut inner = SymbolTable::new();
    inner.insert("b".to_string(), 20);
    inner.insert("c".to_string(), 30);
    let env = outer.overridden(&inner);
    assert_eq!(env.get("a"), Some(1));
    assert_eq!(env.get("b"), Some(20));
    assert_eq!(env.get("c"), Some(30));
    assert_eq!(env.get("d"), None);
    assert_eq!(outer.get("b"), Some(2));
}

#[test]
fn pc_relative_relocation() {
    // The label stands three instructions after the branch's successor.
    let mut scope = Scope::new(lines(&[
        "b end",
        "add r0, r1",
        "add r0, r1",
        "add r0, r1",
        "end:",
        "sub r0, r1",
    ]));
    scope.subst();
    let flat = scope.flatten();
    assert_eq!(tokens(&flat[0]), vec!["b", "0x6"]);
    let unit = Unit::new(
        "a.s".to_string(),
        lines(&["b end", "add r0, r1", "add r0, r1", "add r0, r1", "end:", "sub r0, r1"]),
    );
    assert_eq!(unit.assemble().unwrap(), vec![0xf083, 0xc001, 0xc001, 0xc001, 0x8001]);
}

#[test]
fn backward_relocation() {
    let unit = Unit::new("a.s".to_string(), lines(&["loop:", "add r0, 0x1", "cmp r0, 0xa", "bne loop"]));
    assert_eq!(unit.assemble().unwrap(), vec![0xc081, 0x008a, 0xf2fd]);
}

#[test]
fn update_makes_labels_absolute() {
    let scope = Scope::new(lines(&[
        "add r0, r1",
        ".begin",
        "sub r0, r1",
        "sub r0, r1",
        "in:",
        "sub r0, r1",
        ".end",
        "after:",
        "add r0, r1",
        "last:",
    ]));
    assert_eq!(scope.symbols.get("after"), Some(2));
    let (resolved, end) = scope.update(0);
    assert_eq!(end, 5);
    assert_eq!(resolved.symbols.get("after"), Some(4));
    assert_eq!(resolved.symbols.get("last"), Some(5));
    match &resolved.source[1] {
        Source::Scope(inner) => assert_eq!(inner.symbols.get("in"), Some(3)),
        _ => panic!(),
    }
    let (shifted, end) = scope.update(10);
    assert_eq!(end, 15);
    assert_eq!(shifted.symbols.get("after"), Some(14));
}

#[test]
fn scope_nesting() {
    let source = [
        "add r0, r1", // 0
        ".begin",
        "outer:",
        "add r1, r2", // 1
        ".begin",
        "inner:",
        "add r2, r3", // 2
        "b inner",    // 3
        "b outer",    // 4
        "b below",    // 5
        ".end",
        "b outer", // 6
        "below:",
        "b top", // 7
        ".end",
        "top:",
        "b top", // 8
    ];
    let mut scope = Scope::new(lines(&source));
    scope.subst();
    let flat = scope.flatten();
    let operands: Vec<&str> = flat.iter().map(|l| l.tokens[l.tokens.len() - 1].as_str()).collect();
    assert_eq!(
        operands,
        vec!["r1", "r2", "r3", "0xfffc", "0xfff8", "0x2", "0xfff4", "0x0", "0xfffe"]
    );
    let unit = Unit::new("n.s".to_string(), lines(&source));
    assert_eq!(
        unit.assemble().unwrap(),
        vec![0xc001, 0xc102, 0xc203, 0xf0fe, 0xf0fc, 0xf081, 0xf0fa, 0xf080, 0xf0ff]
    );
}

#[test]
fn inner_label_shadows_outer() {
    let mut scope = Scope::new(lines(&[
        "x:",
        "b x", // 0: to 0 -> -2
        ".begin",
        "b x", // 1: to the inner x at 2 -> 0
        "x:",
        "b x", // 2: to 2 -> -2
        ".end",
        "b x", // 3: to the outer x at 0 -> -8
    ]));
    scope.subst();
    let flat = scope.flatten();
    let operands: Vec<&str> = flat.iter().map(|l| l.tokens[1].as_str()).collect();
    assert_eq!(operands, vec!["0xfffe", "0x0", "0xfffe", "0xfff8"]);
}

#[test]
fn label_of_a_nested_scope_is_not_seen_outside() {
    let unit = Unit::new(
        "n.s".to_string(),
        lines(&["add r0, r1", ".begin", "inner:", "add r0, r1", ".end", "b inner"]),
    );
    let e = unit.assemble().unwrap_err();
    assert_eq!(e.err.err, ParseInstructionError::InvalidOp);
    assert_eq!(e.loc, ("n.s".to_string(), 5));
    assert_eq!(e.line, "b inner");
}

#[test]
fn duplicate_symbol_rejection() {
    let a = Unit::new("a.s".to_string(), lines(&["loop:", "add r0, r1", "b loop"]));
    let b = Unit::new("b.s".to_string(), lines(&["sub r0, r1", "loop:", "b loop"]));
    match a.concat(b) {
        Err(UnitError::DuplicateSymbols { names, path }) => {
            assert_eq!(names, vec!["loop".to_string()]);
            assert_eq!(path, "b.s");
        }
        other => panic!("{:?}", other),
    }
}

#[test]
fn duplicates_lists_every_common_label_once() {
    let a = Unit::new("a.s".to_string(), lines(&["x:", "y:", "add r0, r1", "x:", "z:"]));
    let b = Unit::new("b.s".to_string(), lines(&["z:", "w:", "x:", "sub r0, r1"]));
    assert_eq!(a.duplicates(&b), vec!["x".to_string(), "z".to_string()]);
    let e = a.concat(b).unwrap_err();
    assert_eq!(e.message(), "Duplicate symbols: [\"x\", \"z\"] in b.s");
    let a = Unit::new("a.s".to_string(), lines(&["x:", "add r0, r1", ".begin", "y:", ".end"]));
    let b = Unit::new("b.s".to_string(), lines(&["y:", "sub r0, r1"]));
    assert!(a.duplicates(&b).is_empty());
}

#[test]
fn concat_shifts_the_labels_of_the_second_unit() {
    let a = Unit::new(
        "a.s".to_string(),
        lines(&["first:", "add r0, r1", ".begin", "add r0, r1", "add r0, r1", ".end"]),
    );
    let b = Unit::new("b.s".to_string(), lines(&["sub r0, r1", "second:", "b first", "b second"]));
    let unit = a.concat(b).unwrap();
    assert_eq!(unit.path, "a.s");
    assert_eq!(unit.global.source.len(), 5);
    assert_eq!(unit.global.symbols.get("first"), Some(0));
    assert_eq!(unit.global.symbols.get("second"), Some(3));
    // add, add, add, sub, b first (at 4 to 0: -10), b second (at 5 to 4: -4)
    assert_eq!(unit.assemble().unwrap(), vec![0xc001, 0xc001, 0xc001, 0x8001, 0xf0fb, 0xf0fe]);
}

#[test]
fn unit_assemble_reports_the_first_bad_line() {
    let unit = Unit::new(
        "dir/prog.s".to_string(),
        lines(&["add r0, r1", "; comment", "", "add r0", "frob r1", "add r0, r1"]),
    );
    let e = unit.assemble().unwrap_err();
    assert_eq!(e.err.err, ParseInstructionError::MissingOps);
    assert_eq!(e.loc, ("dir/prog.s".to_string(), 3));
    assert_eq!(e.line, "add r0");
    assert_eq!(
        e.message(),
        "error: Missing operands\n --> dir/prog.s:3\n  |\n3 | add r0\n  |"
    );
}

#[test]
fn verbose_error_message_is_set_off_by_the_width_of_the_number() {
    let e = VerboseError {
        err: AsmError { err: ParseInstructionError::InvalidOp },
        loc: ("x.s".to_string(), 120),
        line: "b nowhere".to_string(),
    };
    assert_eq!(e.err.message(), "error: Invalid operand");
    assert_eq!(
        e.message(),
        "error: Invalid operand\n   --> x.s:120\n    |\n120 | b nowhere\n    |"
    );
}

#[test]
fn unit_error_message() {
    let e = UnitError::DuplicateSymbols { names: vec![], path: "p".to_string() };
    assert_eq!(e.message(), "Duplicate symbols: [] in p");
    let e = UnitError::DuplicateSymbols { names: texts(&["a"]), path: "p".to_string() };
    assert_eq!(e.message(), "Duplicate symbols: [\"a\"] in p");
}

#[test]
fn empty_unit_assembles_to_nothing() {
    assert_eq!(Unit::default().assemble().unwrap(), Vec::<u16>::new());
    let mut a = Assembler::new();
    assert!(a.assemble().is_ok());
    assert!(a.words.is_empty());
    assert!(a.out().is_empty());
}

#[test]
fn assembler_sources_links_and_writes() {
    let mut a = Assembler::new();
    a.src("one.s".to_string(), &texts(&["one:", "  add r0, 0x1 ; first", "", "b two"]));
    a.src("two.s".to_string(), &texts(&["two:", "sub r0, 0x1", "b one"]));
    assert_eq!(a.units.len(), 2);
    assert_eq!(a.units[0].path, "one.s");
    assert!(a.assemble().is_ok());
    assert!(a.units.is_empty());
    // The last unit comes first: sub, b one (at 1 to 2: 0), add, b two (at 3 to 0: -8).
    assert_eq!(a.words, vec![0x8081, 0xf080, 0xc081, 0xf0fc]);
    assert_eq!(a.out(), vec![0x81, 0x80, 0x80, 0xf0, 0x81, 0xc0, 0xfc, 0xf0]);
}

#[test]
fn assembler_keeps_line_numbers_of_the_file() {
    let mut a = Assembler::new();
    a.src("f.s".to_string(), &texts(&["; header", "", "add r0, r1", "   ", "add r0, r99"]));
    match a.assemble() {
        Err(Failure::Line(e)) => {
            assert_eq!(e.loc, ("f.s".to_string(), 4));
            assert_eq!(e.line, "add r0, r99");
            assert_eq!(e.err.err, ParseInstructionError::InvalidOp);
        }
        other => panic!("{:?}", other),
    }
    assert!(a.words.is_empty());
    assert!(a.units.is_empty());
}

#[test]
fn assembler_rejects_duplicate_labels_across_files() {
    let mut a = Assembler::new();
    a.src("one.s".to_string(), &texts(&["loop:", "b loop"]));
    a.src("two.s".to_string(), &texts(&["add r0, r1"]));
    a.src("three.s".to_string(), &texts(&["loop:", "b loop"]));
    match a.assemble() {
        Err(Failure::Link(UnitError::DuplicateSymbols { names, path })) => {
            assert_eq!(names, texts(&["loop"]));
            assert_eq!(path, "one.s");
        }
        other => panic!("{:?}", other),
    }
    assert!(a.units.is_empty());
}
