use hacktools::assembler::assemble;
use hacktools::code_writer::CodeWriter;
use hacktools::parser::Parser;

/// A minimal interpreter for the branch-free symbolic assembly the code
/// generator emits, enough to execute push/pop/arithmetic fragments.
fn run_symbolic(out_text: &str, ram: &mut [u16; 65536]) {
    let mut a: u16 = 0;
    let mut d: u16 = 0;
    for line in out_text.lines() {
        let line = line.trim();
        if line.is_empty() {
            continue;
        }
        if let Some(op) = line.strip_prefix('@') {
            a = match op {
                "SP" => 0,
                "LCL" => 1,
                "ARG" => 2,
                "THIS" => 3,
                "THAT" => 4,
                "R13" => 13,
                _ => op.parse::<u16>().expect("numeric address"),
            };
            continue;
        }
        let (dest, comp) = match line.split_once('=') {
            Some((dst, c)) => (dst, c),
            None => panic!("unsupported line in straight-line fragment: {line}"),
        };
        let m = ram[a as usize];
        let v: u16 = match comp {
            "A" => a,
            "D" => d,
            "M" => m,
            "M+1" => m.wrapping_add(1),
            "M-1" => m.wrapping_sub(1),
            "D+M" => d.wrapping_add(m),
            "M-D" => m.wrapping_sub(d),
            "D+A" => d.wrapping_add(a),
            "D&M" => d & m,
            "D|M" => d | m,
            "-M" => 0u16.wrapping_sub(m),
            "!M" => !m,
            _ => panic!("unsupported computation: {comp}"),
        };
        let old_a = a;
        if dest.contains('M') {
            ram[old_a as usize] = v;
        }
        if dest.contains('A') {
            a = v;
        }
        if dest.contains('D') {
            d = v;
        }
    }
}

#[test]
fn push_add_pop_leaves_fifteen_in_local_zero() {
    let commands = vec![
        "push constant 7".to_string(),
        "push constant 8".to_string(),
        "add".to_string(),
        "pop local 0".to_string(),
    ];
    let mut p = Parser::new(commands, CodeWriter::new());
    let out_text = p.parse().unwrap();
    // The generated text must also assemble cleanly.
    let lines: Vec<String> = out_text.lines().map(|l| l.to_string()).collect();
    let words = assemble(&lines).unwrap();
    assert!(words.iter().all(|w| w.len() == 16));
    // Conceptual execution: SP at 256, the local segment based at 300.
    let mut ram = [0u16; 65536];
    ram[0] = 256;
    ram[1] = 300;
    run_symbolic(&out_text, &mut ram);
    assert_eq!(ram[300], 15);
    assert_eq!(ram[0], 256);
}

#[test]
fn push_pop_round_trip_is_a_no_op_on_cell_and_stack_pointer() {
    for (seg, idx, cell) in [
        ("temp", "3", 8usize),
        ("static", "2", 18usize),
        ("pointer", "1", 4usize),
        ("local", "5", 305usize),
        ("argument", "0", 400usize),
        ("this", "1", 501usize),
        ("that", "2", 602usize),
    ] {
        let commands = vec![format!("push {seg} {idx}"), format!("pop {seg} {idx}")];
        let mut p = Parser::new(commands, CodeWriter::new());
        let out_text = p.parse().unwrap();
        let mut ram = [0u16; 65536];
        ram[0] = 256;
        ram[1] = 300;
        ram[2] = 400;
        ram[3] = 500;
        ram[4] = 600;
        ram[cell] = 12345;
        run_symbolic(&out_text, &mut ram);
        assert_eq!(ram[cell], 12345, "segment {seg}");
        assert_eq!(ram[0], 256, "segment {seg}");
    }
}

#[test]
fn pushed_constants_stack_in_order() {
    let commands: Vec<String> = (0..5).map(|k| format!("push constant {}", k * 11)).collect();
    let mut p = Parser::new(commands, CodeWriter::new());
    let out_text = p.parse().unwrap();
    let mut ram = [0u16; 65536];
    ram[0] = 256;
    run_symbolic(&out_text, &mut ram);
    assert_eq!(ram[0], 261);
    for k in 0..5u16 {
        assert_eq!(ram[256 + k as usize], k * 11);
    }
}

#[test]
fn translated_comparisons_assemble_without_collisions() {
    let commands = vec![
        "push constant 1".to_string(),
        "push constant 2".to_string(),
        "lt".to_string(),
        "push constant 3".to_string(),
        "push constant 3".to_string(),
        "eq".to_string(),
        "push constant 9".to_string(),
        "push constant 4".to_string(),
        "gt".to_string(),
        "push constant 9".to_string(),
        "push constant 4".to_string(),
        "gt".to_string(),
    ];
    let mut p = Parser::new(commands, CodeWriter::new());
    let out_text = p.parse().unwrap();
    // Every emitted label token is unique across the whole output.
    let mut labels: Vec<&str> = out_text
        .lines()
        .filter(|l| l.starts_with('(') && l.ends_with(')'))
        .collect();
    let before = labels.len();
    labels.sort();
    labels.dedup();
    assert_eq!(before, 12);
    assert_eq!(labels.len(), 12);
    // And the whole output assembles: labels resolve, mnemonics encode.
    let lines: Vec<String> = out_text.lines().map(|l| l.to_string()).collect();
    let words = assemble(&lines).unwrap();
    assert!(words.iter().all(|w| w.len() == 16 && w.chars().all(|c| c == '0' || c == '1')));
}
