//! Text layout for the disassembly panes: address and instruction lines, and
//! the register and group name lists looked up through the disassembler.

use vstd::prelude::*;
use vstd::string::StringExecFns;
use vstd::slice::slice_index_get;

verus! {

/// The digit character for a value below sixteen.
pub open spec fn hex_char(d: int) -> char {
    if d == 0 {
        '0'
    } else if d == 1 {
        '1'
    } else if d == 2 {
        '2'
    } else if d == 3 {
        '3'
    } else if d == 4 {
        '4'
    } else if d == 5 {
        '5'
    } else if d == 6 {
        '6'
    } else if d == 7 {
        '7'
    } else if d == 8 {
        '8'
    } else if d == 9 {
        '9'
    } else if d == 10 {
        'a'
    } else if d == 11 {
        'b'
    } else if d == 12 {
        'c'
    } else if d == 13 {
        'd'
    } else if d == 14 {
        'e'
    } else {
        'f'
    }
}

/// The hexadecimal digits of `v`, most significant first.
pub open spec fn hex_digits(v: int) -> Seq<char>
    decreases v,
{
    if v < 16 {
        seq![hex_char(v)]
    } else {
        hex_digits(v / 16).push(hex_char(v % 16))
    }
}

/// How many hexadecimal digits `v` takes.
pub open spec fn hex_len(v: int) -> int
    decreases v,
{
    if v < 16 {
        1
    } else {
        1 + hex_len(v / 16)
    }
}

/// `n` zero characters (none when `n` is not positive).
pub open spec fn zeros(n: int) -> Seq<char> {
    Seq::new(if n <= 0 { 0nat } else { n as nat }, |i: int| '0')
}

/// The hexadecimal text of `v`, zero-padded on the left to `width` digits.
pub open spec fn hex_padded(v: int, width: int) -> Seq<char> {
    zeros(width - hex_len(v)) + hex_digits(v)
}

/// The address column text: `0x`, then at least eight hexadecimal digits.
pub open spec fn addr_format(v: u64) -> Seq<char> {
    seq!['0', 'x'] + hex_padded(v as int, 8)
}

/// The decimal digits of `v`, most significant first.
pub open spec fn dec_digits(v: int) -> Seq<char>
    decreases v,
{
    if v < 10 {
        seq![hex_char(v)]
    } else {
        dec_digits(v / 10).push(hex_char(v % 10))
    }
}

fn digit_string(d: u64) -> (r: String)
    requires
        d < 16,
    ensures
        r@ == seq![hex_char(d as int)],
{
    proof {
        reveal_strlit("0");
        reveal_strlit("1");
        reveal_strlit("2");
        reveal_strlit("3");
        reveal_strlit("4");
        reveal_strlit("5");
        reveal_strlit("6");
        reveal_strlit("7");
        reveal_strlit("8");
        reveal_strlit("9");
        reveal_strlit("a");
        reveal_strlit("b");
        reveal_strlit("c");
        reveal_strlit("d");
        reveal_strlit("e");
        reveal_strlit("f");
    }
    let s: &str = if d == 0 {
        "0"
    } else if d == 1 {
        "1"
    } else if d == 2 {
        "2"
    } else if d == 3 {
        "3"
    } else if d == 4 {
        "4"
    } else if d == 5 {
        "5"
    } else if d == 6 {
        "6"
    } else if d == 7 {
        "7"
    } else if d == 8 {
        "8"
    } else if d == 9 {
        "9"
    } else if d == 10 {
        "a"
    } else if d == 11 {
        "b"
    } else if d == 12 {
        "c"
    } else if d == 13 {
        "d"
    } else if d == 14 {
        "e"
    } else {
        "f"
    };
    String::from_str(s)
}

/// The hexadecimal text of `v`, zero-padded on the left to `width` digits.
pub fn hex_pad(v: u64, width: usize) -> (r: String)
    ensures
        r@ == hex_padded(v as int, width as int),
    decreases v,
{
    if v < 16 {
        let mut s = String::new();
        let mut k: usize = 0;
        while k + 1 < width
            invariant
                width > 0 ==> k + 1 <= width,
                width == 0 ==> k == 0,
                s@ == zeros(k as int),
            decreases width - k,
        {
            s.append("0");
            k += 1;
            proof {
                reveal_strlit("0");
                assert(zeros(k as int - 1) + "0"@ =~= zeros(k as int));
            }
        }
        let d = digit_string(v);
        s.append(d.as_str());
        proof {
            assert(s@ =~= hex_padded(v as int, width as int));
        }
        s
    } else {
        let inner_width = if width == 0 {
            0
        } else {
            width - 1
        };
        let mut s = hex_pad(v / 16, inner_width);
        let d = digit_string(v % 16);
        s.append(d.as_str());
        proof {
            lemma_hex_len_pos(v as int / 16);
            assert(hex_len(v as int) == 1 + hex_len(v as int / 16));
            assert(zeros(width - hex_len(v as int)) =~= zeros(
                inner_width as int - hex_len(v as int / 16),
            ));
            assert(s@ =~= hex_padded(v as int, width as int));
        }
        s
    }
}

proof fn lemma_hex_len_pos(v: int)
    ensures
        hex_len(v) >= 1,
    decreases v,
{
    if v >= 16 {
        lemma_hex_len_pos(v / 16);
    }
}

/// The address column text of `addr`, as the viewer prints it.
pub fn format_address(addr: u64) -> (r: String)
    ensures
        r@ == addr_format(addr),
{
    let mut s = String::from_str("0x");
    let digits = hex_pad(addr, 8);
    s.append(digits.as_str());
    proof {
        reveal_strlit("0x");
        assert(s@ =~= addr_format(addr));
    }
    s
}

/// The decimal text of `v`.
pub fn decimal_string(v: u64) -> (r: String)
    ensures
        r@ == dec_digits(v as int),
    decreases v,
{
    if v < 10 {
        digit_string(v)
    } else {
        let mut s = decimal_string(v / 10);
        let d = digit_string(v % 10);
        s.append(d.as_str());
        s
    }
}

/// The heading above the panes, counting the decoded instructions.
pub fn summary_line(count: u64) -> (r: String)
    ensures
        r@ == "Found "@ + dec_digits(count as int) + " instructions"@,
{
    let mut s = String::from_str("Found ");
    let num = decimal_string(count);
    s.append(num.as_str());
    s.append(" instructions");
    s
}

/// One pane line for an instruction: mnemonic, a space, the operand text.
pub fn instruction_line(mnemonic: &str, operands: &str) -> (r: String)
    ensures
        r@ == mnemonic@ + " "@ + operands@,
{
    let mut s = String::from_str(mnemonic);
    s.append(" ");
    s.append(operands);
    s
}

/// One decoded instruction, handed over by the decoder as plain values.
pub struct InsnRecord {
    pub address: u64,
    pub mnemonic: String,
    pub operands: String,
}

/// Formats decoded instructions into the two parallel pane line sequences:
/// addresses on the left, mnemonic and operand text on the right.
pub fn disassembly_lines(records: &Vec<InsnRecord>) -> (r: (Vec<String>, Vec<String>))
    ensures
        r.0@.len() == records@.len(),
        r.1@.len() == records@.len(),
        forall|i: int|
            0 <= i < records@.len() ==> (#[trigger] r.0@[i])@ == addr_format(records@[i].address),
        forall|i: int|
            0 <= i < records@.len() ==> (#[trigger] r.1@[i])@ == records@[i].mnemonic@ + " "@
                + records@[i].operands@,
{
    let mut ads: Vec<String> = Vec::new();
    let mut ops: Vec<String> = Vec::new();
    let n = records.len();
    for i in 0..n
        invariant
            n == records@.len(),
            ads@.len() == i,
            ops@.len() == i,
            forall|q: int| 0 <= q < i ==> (#[trigger] ads@[q])@ == addr_format(records@[q].address),
            forall|q: int|
                0 <= q < i ==> (#[trigger] ops@[q])@ == records@[q].mnemonic@ + " "@
                    + records@[q].operands@,
    {
        let rec = &records[i];
        ads.push(format_address(rec.address));
        ops.push(instruction_line(rec.mnemonic.as_str(), rec.operands.as_str()));
    }
    (ads, ops)
}

/// Name parts joined by a comma and a space.
pub open spec fn join_comma(parts: Seq<Seq<char>>) -> Seq<char>
    decreases parts.len(),
{
    if parts.len() == 0 {
        Seq::empty()
    } else if parts.len() == 1 {
        parts[0]
    } else {
        join_comma(parts.drop_last()) + seq![',', ' '] + parts.last()
    }
}

/// Joins the given names with a comma and a space between each two.
pub fn join_names(parts: &Vec<String>) -> (r: String)
    ensures
        r@ == join_comma(parts@.map_values(|p: String| p@)),
{
    let mut s = String::new();
    let n = parts.len();
    for i in 0..n
        invariant
            n == parts@.len(),
            s@ == join_comma(parts@.map_values(|p: String| p@).take(i as int)),
    {
        if i > 0 {
            s.append(", ");
        }
        let p = &parts[i];
        s.append(p.as_str());
        proof {
            reveal_strlit(", ");
            let views = parts@.map_values(|q: String| q@);
            assert(views.take(i as int + 1).drop_last() =~= views.take(i as int));
            assert(views.take(i as int + 1).last() == views[i as int]);
            assert(s@ =~= join_comma(views.take(i as int + 1)));
        }
    }
    proof {
        let views = parts@.map_values(|q: String| q@);
        assert(views.take(n as int) =~= views);
    }
    s
}

#[verifier::external_type_specification]
#[verifier::external_body]
pub struct ExCapstone(capstone::Capstone);

#[verifier::external_type_specification]
#[verifier::external_body]
pub struct ExRegId(capstone::RegId);

#[verifier::external_type_specification]
#[verifier::external_body]
pub struct ExInsnGroupId(capstone::InsnGroupId);

/// Relies on capstone::Capstone::reg_name: yields the printable name of a
/// register id, or nothing when the handle cannot name it.
#[verifier::external_body]
fn reg_name_of(cs: &capstone::Capstone, reg: &capstone::RegId) -> (r: Option<String>) {
    cs.reg_name(*reg)
}

/// Relies on capstone::Capstone::group_name: yields the printable name of an
/// instruction group id, or nothing when the handle cannot name it.
#[verifier::external_body]
fn group_name_of(cs: &capstone::Capstone, group: &capstone::InsnGroupId) -> (r: Option<String>) {
    cs.group_name(*group)
}

/// The names of the given registers, joined by a comma and a space; a register
/// the disassembler cannot name contributes an empty part.
pub fn reg_names(cs: &capstone::Capstone, regs: &[capstone::RegId]) -> (r: String)
    ensures
        exists|names: Seq<Seq<char>>| names.len() == regs@.len() && r@ == join_comma(names),
{
    let mut parts: Vec<String> = Vec::new();
    let n = regs.len();
    for i in 0..n
        invariant
            n == regs@.len(),
            parts@.len() == i,
    {
        let name = match reg_name_of(cs, slice_index_get(regs, i)) {
            Some(nm) => nm,
            None => String::new(),
        };
        parts.push(name);
    }
    let r = join_names(&parts);
    proof {
        let names = parts@.map_values(|p: String| p@);
        assert(names.len() == regs@.len() && r@ == join_comma(names));
    }
    r
}

/// The names of the given instruction groups, joined by a comma and a space; a
/// group the disassembler cannot name contributes an empty part.
pub fn group_names(cs: &capstone::Capstone, regs: &[capstone::InsnGroupId]) -> (r: String)
    ensures
        exists|names: Seq<Seq<char>>| names.len() == regs@.len() && r@ == join_comma(names),
{
    let mut parts: Vec<String> = Vec::new();
    let n = regs.len();
    for i in 0..n
        invariant
            n == regs@.len(),
            parts@.len() == i,
    {
        let name = match group_name_of(cs, slice_index_get(regs, i)) {
            Some(nm) => nm,
            None => String::new(),
        };
        parts.push(name);
    }
    let r = join_names(&parts);
    proof {
        let names = parts@.map_values(|p: String| p@);
        assert(names.len() == regs@.len() && r@ == join_comma(names));
    }
    r
}

} // verus!
