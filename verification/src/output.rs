//! Where the results of a run are written, and the lines of a storage dump.

use vstd::prelude::*;
use crate::text::{join, joined, texts_of};

verus! {

/// A hexadecimal digit of either case.
pub open spec fn is_hex_digit(c: char) -> bool {
    ('0' <= c && c <= '9') || ('a' <= c && c <= 'f') || ('A' <= c && c <= 'F')
}

/// An address: `0x` and forty hexadecimal digits, nothing before or after.
pub open spec fn is_address_text(text: Seq<char>) -> bool {
    &&& text.len() == 42
    &&& text[0] == '0'
    &&& text[1] == 'x'
    &&& forall|i: int| 2 <= i < 42 ==> is_hex_digit(#[trigger] text[i])
}

/// One row of a storage dump.
#[derive(Clone, Debug, PartialEq, Eq)]
pub struct DumpRow {
    pub last_modified: String,
    pub alias: String,
    pub slot: String,
    pub decoded_type: String,
    pub value: String,
}

/// The line of a row: its five fields with commas between them.
pub open spec fn dump_line_of(row: DumpRow) -> Seq<char> {
    row.last_modified@ + ","@ + row.alias@ + ","@ + row.slot@ + ","@ + row.decoded_type@ + ","@
        + row.value@
}

/// The lines of a dump: the header, then one line for each row, in order.
pub open spec fn dump_lines_of(rows: Seq<DumpRow>) -> Seq<Seq<char>> {
    seq!["last_modified,alias,slot,decoded_type,value"@] + rows.map_values(
        |row: DumpRow| dump_line_of(row),
    )
}

/// Whether two texts hold the same characters.
pub fn same_text(a: &str, b: &str) -> (same: bool)
    ensures
        same == (a@ == b@),
{
    let n: usize = a.unicode_len();
    if b.unicode_len() != n {
        return false;
    }
    let mut i: usize = 0;
    while i < n
        invariant
            n == a@.len(),
            n == b@.len(),
            i <= n,
            forall|j: int| 0 <= j < i ==> a@[j] == b@[j],
        decreases n - i,
    {
        if a.get_char(i) != b.get_char(i) {
            return false;
        }
        i = i + 1;
    }
    proof {
        assert(a@ =~= b@);
    }
    true
}

/// Whether `c` is a hexadecimal digit.
pub fn hex_digit(c: char) -> (hex: bool)
    ensures
        hex == is_hex_digit(c),
{
    ('0' <= c && c <= '9') || ('a' <= c && c <= 'f') || ('A' <= c && c <= 'F')
}

/// Whether `target` names a contract on chain rather than a local file: whether
/// it is an address.
pub fn is_address(target: &str) -> (address: bool)
    ensures
        address == is_address_text(target@),
{
    let n: usize = target.unicode_len();
    if n != 42 {
        return false;
    }
    if target.get_char(0) != '0' || target.get_char(1) != 'x' {
        return false;
    }
    let mut i: usize = 2;
    while i < 42
        invariant
            target@.len() == 42,
            2 <= i <= 42,
            forall|j: int| 2 <= j < i ==> is_hex_digit(#[trigger] target@[j]),
        decreases 42 - i,
    {
        if !hex_digit(target.get_char(i)) {
            return false;
        }
        i = i + 1;
    }
    true
}

/// A setting as given, or the configured one where none was given.
pub fn or_configured(given: String, configured: String) -> (setting: String)
    ensures
        setting == if given@.len() == 0 {
            configured
        } else {
            given
        },
{
    if given.as_str().unicode_len() == 0 {
        configured
    } else {
        given
    }
}

/// Whether the results go to the terminal rather than to files.
pub fn prints(output: &str) -> (print: bool)
    ensures
        print == (output@ == "print"@),
{
    same_text(output, "print")
}

/// `name` below the directory `dir`.
pub fn below(dir: &str, name: &str) -> (path: String)
    ensures
        path@ == dir@ + "/"@ + name@,
{
    String::from_str(dir).concat("/").concat(name)
}

/// The directory for what was read from a local file.
pub fn local_dir(root: &str) -> (dir: String)
    ensures
        dir@ == root@ + "/"@ + "local"@,
{
    below(root, "local")
}

/// The directory for a contract on a chain.
pub fn chain_dir(root: &str, chain_id: &str, target: &str) -> (dir: String)
    ensures
        dir@ == root@ + "/"@ + chain_id@ + "/"@ + target@,
{
    String::from_str(root).concat("/").concat(chain_id).concat("/").concat(target)
}

/// The file that holds the synthesized source.
pub fn source_file(include_solidity: bool) -> (name: &'static str)
    ensures
        name@ == if include_solidity {
            "decompiled.sol"@
        } else {
            "decompiled.yul"@
        },
{
    if include_solidity {
        "decompiled.sol"
    } else {
        "decompiled.yul"
    }
}

/// The ABI document: the entries in square brackets, a comma and a line
/// break between each two.
pub fn abi_document(entries: &Vec<String>) -> (document: String)
    ensures
        document@ == "["@ + joined(texts_of(entries@), ",\n"@) + "]"@,
{
    String::from_str("[").concat(join(entries, ",\n").as_str()).concat("]")
}

/// The line of one row of a dump.
pub fn dump_line(row: &DumpRow) -> (line: String)
    ensures
        line@ == dump_line_of(*row),
{
    String::from_str(row.last_modified.as_str()).concat(",").concat(row.alias.as_str()).concat(
        ",",
    ).concat(row.slot.as_str()).concat(",").concat(row.decoded_type.as_str()).concat(",").concat(
        row.value.as_str(),
    )
}

/// The lines of a dump: the header, then the rows in order.
pub fn dump_lines(rows: &Vec<DumpRow>) -> (lines: Vec<String>)
    ensures
        texts_of(lines@) == dump_lines_of(rows@),
{
    let mut lines: Vec<String> = Vec::new();
    lines.push(String::from_str("last_modified,alias,slot,decoded_type,value"));
    let mut i: usize = 0;
    proof {
        assert(texts_of(lines@) =~= dump_lines_of(rows@.subrange(0, 0)));
    }
    while i < rows.len()
        invariant
            i <= rows.len(),
            texts_of(lines@) == dump_lines_of(rows@.subrange(0, i as int)),
        decreases rows.len() - i,
    {
        let line = dump_line(&rows[i]);
        proof {
            let before = rows@.subrange(0, i as int);
            let upto = rows@.subrange(0, i + 1);
            assert(upto =~= before.push(rows@[i as int]));
            assert(texts_of(lines@.push(line)) =~= texts_of(lines@).push(line@));
            assert(dump_lines_of(upto) =~= dump_lines_of(before).push(line@));
        }
        lines.push(line);
        i = i + 1;
    }
    proof {
        assert(rows@.subrange(0, rows.len() as int) =~= rows@);
    }
    lines
}

} // verus!
