use gen_syscall_enum::extract::extract;
use gen_syscall_enum::generate;
use gen_syscall_enum::render::render;
use gen_syscall_enum::table::SymbolEntry;

fn entry(name: &str, id: &str) -> SymbolEntry {
    SymbolEntry {
        name: name.as_bytes().to_vec(),
        id: id.as_bytes().to_vec(),
    }
}

const PREAMBLE: &str = "// AUTOGENERATED by tools/gen-syscall-enum\n\n/// Linux syscalls.\n#[allow(non_camel_case_types)]\npub enum Syscall {\n";

#[test]
fn empty_table_renders_complete_block() {
    let out = render(&vec![]);
    let text = String::from_utf8(out).unwrap();
    assert_eq!(text, format!("{}}}\n", PREAMBLE));
}

#[test]
fn three_members_in_order() {
    let table = vec![entry("read", "0"), entry("write", "1"), entry("open", "2")];
    let out = render(&table);
    let text = String::from_utf8(out).unwrap();
    let expected = format!(
        "{}    /// <https://man7.org/linux/man-pages/man2/read.2.html>\n    read = 0,\n    /// <https://man7.org/linux/man-pages/man2/write.2.html>\n    write = 1,\n    /// <https://man7.org/linux/man-pages/man2/open.2.html>\n    open = 2,\n}}\n",
        PREAMBLE
    );
    assert_eq!(text, expected);
}

#[test]
fn render_is_pure() {
    let table = vec![entry("mmap", "9"), entry("exit", "60")];
    let once = render(&table);
    let twice = render(&table);
    assert_eq!(once, twice);
}

#[test]
fn one_member_per_entry_each_with_doc_link() {
    let table = vec![
        entry("read", "0"),
        entry("dup", "32"),
        entry("dup", "33"),
        entry("openat", "257"),
    ];
    let out = render(&table);
    let text = String::from_utf8(out).unwrap();
    let lines: Vec<&str> = text.lines().collect();
    // Five preamble lines, two lines per member, one closing line.
    assert_eq!(lines.len(), 5 + 2 * table.len() + 1);
    for (k, e) in table.iter().enumerate() {
        let name = std::str::from_utf8(&e.name).unwrap();
        let id = std::str::from_utf8(&e.id).unwrap();
        assert_eq!(
            lines[5 + 2 * k],
            format!("    /// <https://man7.org/linux/man-pages/man2/{}.2.html>", name)
        );
        assert_eq!(lines[5 + 2 * k + 1], format!("    {} = {},", name, id));
    }
    assert_eq!(lines[lines.len() - 1], "}");
}

#[test]
fn member_count_matches_table_len() {
    let table = vec![entry("a", "1"), entry("b", "2")];
    let out = render(&table);
    let text = String::from_utf8(out).unwrap();
    assert_eq!(text.matches(" = ").count(), table.len());
    assert_eq!(
        text.matches("    /// <https://man7.org/linux/man-pages/man2/").count(),
        table.len()
    );
}

#[test]
fn extract_then_render_end_to_end() {
    let text = b"// aarch64 syscalls\n#define __NR_io_setup 0\n#define __NR_io_destroy 1\n";
    let table = extract(text);
    let out = render(&table);
    let rendered = String::from_utf8(out).unwrap();
    let expected = format!(
        "{}    /// <https://man7.org/linux/man-pages/man2/io_setup.2.html>\n    io_setup = 0,\n    /// <https://man7.org/linux/man-pages/man2/io_destroy.2.html>\n    io_destroy = 1,\n}}\n",
        PREAMBLE
    );
    assert_eq!(rendered, expected);
    assert_eq!(String::from_utf8(generate(text)).unwrap(), expected);
}
