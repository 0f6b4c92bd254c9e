//! Application-descriptor parsing: key/value pairs inside the
//! `[Desktop Entry]` section of a descriptor file.
//!
//! The parser works line by line over raw bytes.  Only the first
//! occurrence of `Name`, `GenericName`, `Exec` and `Icon` counts; the
//! launch command loses its placeholder field codes; entries flagged
//! hidden, or missing a name or a command, are rejected.

use vstd::prelude::*;

use crate::text::{
    bytes_eq, lower_spec, split_bytes, split_once_bytes, split_once_spec, split_spec, to_lower,
    trim, trim_spec,
};

verus! {

// ---------------------------------------------------------------------
// Key constants
// ---------------------------------------------------------------------

/// `[Desktop Entry]`
pub open spec fn header_bytes() -> Seq<u8> {
    seq![91u8, 68u8, 101u8, 115u8, 107u8, 116u8, 111u8, 112u8, 32u8, 69u8, 110u8, 116u8, 114u8, 121u8, 93u8]
}

/// `Name`
pub open spec fn name_key() -> Seq<u8> {
    seq![78u8, 97u8, 109u8, 101u8]
}

/// `GenericName`
pub open spec fn generic_name_key() -> Seq<u8> {
    seq![71u8, 101u8, 110u8, 101u8, 114u8, 105u8, 99u8, 78u8, 97u8, 109u8, 101u8]
}

/// `Exec`
pub open spec fn exec_key() -> Seq<u8> {
    seq![69u8, 120u8, 101u8, 99u8]
}

/// `Icon`
pub open spec fn icon_key() -> Seq<u8> {
    seq![73u8, 99u8, 111u8, 110u8]
}

/// `Categories`
pub open spec fn categories_key() -> Seq<u8> {
    seq![67u8, 97u8, 116u8, 101u8, 103u8, 111u8, 114u8, 105u8, 101u8, 115u8]
}

/// `NoDisplay`
pub open spec fn no_display_key() -> Seq<u8> {
    seq![78u8, 111u8, 68u8, 105u8, 115u8, 112u8, 108u8, 97u8, 121u8]
}

/// `Hidden`
pub open spec fn hidden_key() -> Seq<u8> {
    seq![72u8, 105u8, 100u8, 100u8, 101u8, 110u8]
}

/// `true`
pub open spec fn true_bytes() -> Seq<u8> {
    seq![116u8, 114u8, 117u8, 101u8]
}

fn header_exec() -> (r: Vec<u8>)
    ensures
        r@ == header_bytes(),
{
    let v: Vec<u8> = vec![91, 68, 101, 115, 107, 116, 111, 112, 32, 69, 110, 116, 114, 121, 93];
    proof {
        assert(v@ =~= header_bytes());
    }
    v
}

fn name_key_exec() -> (r: Vec<u8>)
    ensures
        r@ == name_key(),
{
    let v: Vec<u8> = vec![78, 97, 109, 101];
    proof {
        assert(v@ =~= name_key());
    }
    v
}

fn generic_name_key_exec() -> (r: Vec<u8>)
    ensures
        r@ == generic_name_key(),
{
    let v: Vec<u8> = vec![71, 101, 110, 101, 114, 105, 99, 78, 97, 109, 101];
    proof {
        assert(v@ =~= generic_name_key());
    }
    v
}

fn exec_key_exec() -> (r: Vec<u8>)
    ensures
        r@ == exec_key(),
{
    let v: Vec<u8> = vec![69, 120, 101, 99];
    proof {
        assert(v@ =~= exec_key());
    }
    v
}

fn icon_key_exec() -> (r: Vec<u8>)
    ensures
        r@ == icon_key(),
{
    let v: Vec<u8> = vec![73, 99, 111, 110];
    proof {
        assert(v@ =~= icon_key());
    }
    v
}

fn categories_key_exec() -> (r: Vec<u8>)
    ensures
        r@ == categories_key(),
{
    let v: Vec<u8> = vec![67, 97, 116, 101, 103, 111, 114, 105, 101, 115];
    proof {
        assert(v@ =~= categories_key());
    }
    v
}

fn no_display_key_exec() -> (r: Vec<u8>)
    ensures
        r@ == no_display_key(),
{
    let v: Vec<u8> = vec![78, 111, 68, 105, 115, 112, 108, 97, 121];
    proof {
        assert(v@ =~= no_display_key());
    }
    v
}

fn hidden_key_exec() -> (r: Vec<u8>)
    ensures
        r@ == hidden_key(),
{
    let v: Vec<u8> = vec![72, 105, 100, 100, 101, 110];
    proof {
        assert(v@ =~= hidden_key());
    }
    v
}

fn true_bytes_exec() -> (r: Vec<u8>)
    ensures
        r@ == true_bytes(),
{
    let v: Vec<u8> = vec![116, 114, 117, 101];
    proof {
        assert(v@ =~= true_bytes());
    }
    v
}

// ---------------------------------------------------------------------
// Field-code stripping
// ---------------------------------------------------------------------

/// Remove every `%c` pair for one code letter, scanning left to right.
pub open spec fn strip_code_spec(s: Seq<u8>, c: u8) -> Seq<u8>
    decreases s.len(),
{
    if s.len() >= 2 && s[0] == 37 && s[1] == c {
        strip_code_spec(s.skip(2), c)
    } else if s.len() >= 1 {
        seq![s[0]].add(strip_code_spec(s.skip(1), c))
    } else {
        Seq::empty()
    }
}

/// The placeholder field codes removed from launch commands, in the
/// order they are stripped.
pub open spec fn field_codes() -> Seq<u8> {
    seq![102u8, 70u8, 117u8, 85u8, 100u8, 68u8, 110u8, 78u8, 107u8, 118u8]
}

/// Strip the codes in `field_codes()[..n]`, first code first.
pub open spec fn strip_codes_upto(s: Seq<u8>, n: int) -> Seq<u8>
    decreases n,
{
    if n <= 0 {
        s
    } else {
        strip_code_spec(strip_codes_upto(s, n - 1), field_codes()[n - 1])
    }
}

/// A launch command with all placeholder field codes removed and the
/// remainder trimmed.
pub open spec fn clean_exec_spec(s: Seq<u8>) -> Seq<u8> {
    trim_spec(strip_codes_upto(s, field_codes().len() as int))
}

/// Remove the `%c` pairs for one code letter.
fn strip_code(s: &[u8], c: u8) -> (r: Vec<u8>)
    ensures
        r@ == strip_code_spec(s@, c),
{
    let mut out: Vec<u8> = Vec::new();
    let mut i: usize = 0;
    proof {
        assert(s@.skip(0) =~= s@);
    }
    while i < s.len()
        invariant
            i <= s@.len(),
            strip_code_spec(s@, c) == out@.add(strip_code_spec(s@.skip(i as int), c)),
        decreases s@.len() - i,
    {
        proof {
            assert(s@.skip(i as int)[0] == s@[i as int]);
            if i + 1 < s@.len() {
                assert(s@.skip(i as int)[1] == s@[i as int + 1]);
                assert(s@.skip(i as int).skip(2) =~= s@.skip(i as int + 2));
            }
            assert(s@.skip(i as int).skip(1) =~= s@.skip(i as int + 1));
        }
        if s[i] == 37 && i + 1 < s.len() && s[i + 1] == c {
            i += 2;
        } else {
            out.push(s[i]);
            proof {
                assert(out@ =~= out@.drop_last().add(seq![s@[i as int]]));
                assert(out@.drop_last().add(seq![s@[i as int]].add(strip_code_spec(
                    s@.skip(i as int + 1),
                    c,
                ))) =~= out@.add(strip_code_spec(s@.skip(i as int + 1), c)));
            }
            i += 1;
        }
    }
    proof {
        assert(s@.skip(s@.len() as int) =~= Seq::<u8>::empty());
        assert(out@.add(Seq::<u8>::empty()) =~= out@);
    }
    out
}

/// Strip all field codes and trim: the stored launch command.
fn clean_exec(s: &[u8]) -> (r: Vec<u8>)
    ensures
        r@ == clean_exec_spec(s@),
{
    let codes: Vec<u8> = vec![102, 70, 117, 85, 100, 68, 110, 78, 107, 118];
    proof {
        assert(codes@ =~= field_codes());
    }
    let mut cur: Vec<u8> = vstd::slice::slice_to_vec(s);
    let mut n: usize = 0;
    while n < codes.len()
        invariant
            n <= codes@.len(),
            codes@ == field_codes(),
            cur@ == strip_codes_upto(s@, n as int),
        decreases codes@.len() - n,
    {
        cur = strip_code(cur.as_slice(), codes[n]);
        n += 1;
    }
    let r = trim(cur.as_slice());
    proof {
        assert(field_codes().len() == 10);
    }
    r
}

// ---------------------------------------------------------------------
// Categories
// ---------------------------------------------------------------------

/// Trim each part and keep the non-empty ones.
pub open spec fn categories_of(parts: Seq<Seq<u8>>) -> Seq<Seq<u8>>
    decreases parts.len(),
{
    if parts.len() == 0 {
        Seq::empty()
    } else {
        let rest = categories_of(parts.drop_last());
        let t = trim_spec(parts.last());
        if t.len() > 0 {
            rest.push(t)
        } else {
            rest
        }
    }
}

/// The category list of a `Categories` value: split at `;`, trimmed,
/// empty parts dropped.
pub open spec fn categories_spec(v: Seq<u8>) -> Seq<Seq<u8>> {
    categories_of(split_spec(v, 59))
}

/// Parse a `Categories` value.
fn parse_categories(v: &[u8]) -> (r: Vec<Vec<u8>>)
    ensures
        r.deep_view() == categories_spec(v@),
{
    let parts = split_bytes(v, 59);
    let mut out: Vec<Vec<u8>> = Vec::new();
    let mut i: usize = 0;
    proof {
        assert(parts.deep_view().take(0) =~= Seq::<Seq<u8>>::empty());
    }
    while i < parts.len()
        invariant
            i <= parts@.len(),
            parts@.len() == parts.deep_view().len(),
            out.deep_view() =~~= categories_of(parts.deep_view().take(i as int)),
        decreases parts@.len() - i,
    {
        proof {
            assert(parts.deep_view().take(i as int + 1).drop_last() =~= parts.deep_view().take(
                i as int,
            ));
            assert(parts.deep_view().take(i as int + 1).last() == parts.deep_view()[i as int]);
            assert(parts.deep_view()[i as int] == parts@[i as int]@);
        }
        let t = trim(parts[i].as_slice());
        if t.len() > 0 {
            out.push(t);
        }
        proof {
            assert(out.deep_view() =~~= categories_of(parts.deep_view().take(i as int + 1)));
        }
        i += 1;
    }
    proof {
        assert(parts.deep_view().take(parts.deep_view().len() as int) =~= parts.deep_view());
    }
    out
}

// ---------------------------------------------------------------------
// Line-by-line parsing
// ---------------------------------------------------------------------

/// Parser state after some prefix of the lines.
pub ghost struct ParseAcc {
    pub name: Seq<u8>,
    pub generic_name: Seq<u8>,
    pub exec_cmd: Seq<u8>,
    pub icon: Seq<u8>,
    pub categories: Seq<Seq<u8>>,
    pub no_display: bool,
    pub hidden: bool,
    pub in_section: bool,
}

/// The state before any line.
pub open spec fn parse_acc_init() -> ParseAcc {
    ParseAcc {
        name: Seq::empty(),
        generic_name: Seq::empty(),
        exec_cmd: Seq::empty(),
        icon: Seq::empty(),
        categories: Seq::empty(),
        no_display: false,
        hidden: false,
        in_section: false,
    }
}

/// One line: section headers switch the section flag; inside the
/// `[Desktop Entry]` section, `key=value` pairs fill the fields.
pub open spec fn parse_line_spec(st: ParseAcc, line: Seq<u8>) -> ParseAcc {
    let t = trim_spec(line);
    if t.len() > 0 && t[0] == 91 {
        ParseAcc { in_section: t == header_bytes(), ..st }
    } else if !st.in_section {
        st
    } else {
        match split_once_spec(t, 61) {
            Some((k, v)) => {
                let key = trim_spec(k);
                let val = trim_spec(v);
                if key == name_key() && st.name.len() == 0 {
                    ParseAcc { name: val, ..st }
                } else if key == generic_name_key() && st.generic_name.len() == 0 {
                    ParseAcc { generic_name: val, ..st }
                } else if key == exec_key() && st.exec_cmd.len() == 0 {
                    ParseAcc { exec_cmd: clean_exec_spec(val), ..st }
                } else if key == icon_key() && st.icon.len() == 0 {
                    ParseAcc { icon: val, ..st }
                } else if key == categories_key() {
                    ParseAcc { categories: categories_spec(val), ..st }
                } else if key == no_display_key() {
                    ParseAcc { no_display: lower_spec(val) == true_bytes(), ..st }
                } else if key == hidden_key() {
                    ParseAcc { hidden: lower_spec(val) == true_bytes(), ..st }
                } else {
                    st
                }
            },
            None => st,
        }
    }
}

/// Fold `parse_line_spec` over the lines, first line first.
pub open spec fn parse_lines_spec(lines: Seq<Seq<u8>>) -> ParseAcc
    decreases lines.len(),
{
    if lines.len() == 0 {
        parse_acc_init()
    } else {
        parse_line_spec(parse_lines_spec(lines.drop_last()), lines.last())
    }
}

/// What a whole descriptor file parses to: the fields of the
/// `[Desktop Entry]` section, or `None` when the entry is flagged
/// `NoDisplay` or `Hidden`, or misses a name or a launch command.
pub open spec fn desktop_fields_spec(content: Seq<u8>) -> Option<ParseAcc> {
    let st = parse_lines_spec(split_spec(content, 10));
    if st.no_display || st.hidden {
        None
    } else if st.name.len() == 0 || st.exec_cmd.len() == 0 {
        None
    } else {
        Some(st)
    }
}

/// Executable parser state.
pub struct DesktopFields {
    pub name: Vec<u8>,
    pub generic_name: Vec<u8>,
    pub exec_cmd: Vec<u8>,
    pub icon: Vec<u8>,
    pub categories: Vec<Vec<u8>>,
}

impl DesktopFields {
    /// The parsed fields as a spec value.
    pub open spec fn accords(self, st: ParseAcc) -> bool {
        &&& self.name@ == st.name
        &&& self.generic_name@ == st.generic_name
        &&& self.exec_cmd@ == st.exec_cmd
        &&& self.icon@ == st.icon
        &&& self.categories.deep_view() == st.categories
    }
}

/// Parse one descriptor file.  Returns the fields exactly when
/// `desktop_fields_spec` accepts the content.
pub fn parse_desktop_entry(content: &[u8]) -> (r: Option<DesktopFields>)
    ensures
        match desktop_fields_spec(content@) {
            Some(st) => r matches Some(f) && f.accords(st),
            None => r is None,
        },
{
    let lines = split_bytes(content, 10);
    let mut name: Vec<u8> = Vec::new();
    let mut generic_name: Vec<u8> = Vec::new();
    let mut exec_cmd: Vec<u8> = Vec::new();
    let mut icon: Vec<u8> = Vec::new();
    let mut categories: Vec<Vec<u8>> = Vec::new();
    let mut no_display = false;
    let mut hidden = false;
    let mut in_section = false;
    let mut i: usize = 0;
    proof {
        assert(lines.deep_view().take(0) =~= Seq::<Seq<u8>>::empty());
    }
    while i < lines.len()
        invariant
            i <= lines@.len(),
            lines@.len() == lines.deep_view().len(),
            ({
                let st = parse_lines_spec(lines.deep_view().take(i as int));
                &&& name@ == st.name
                &&& generic_name@ == st.generic_name
                &&& exec_cmd@ == st.exec_cmd
                &&& icon@ == st.icon
                &&& categories.deep_view() == st.categories
                &&& no_display == st.no_display
                &&& hidden == st.hidden
                &&& in_section == st.in_section
            }),
        decreases lines@.len() - i,
    {
        proof {
            assert(lines.deep_view().take(i as int + 1).drop_last() =~= lines.deep_view().take(
                i as int,
            ));
            assert(lines.deep_view().take(i as int + 1).last() == lines.deep_view()[i as int]);
            assert(lines.deep_view()[i as int] == lines@[i as int]@);
        }
        let ghost st_pre = parse_lines_spec(lines.deep_view().take(i as int));
        let ghost st_post = parse_lines_spec(lines.deep_view().take(i as int + 1));
        proof {
            assert(st_post == parse_line_spec(st_pre, lines@[i as int]@));
        }
        let t = trim(lines[i].as_slice());
        if t.len() > 0 && t[0] == 91 {
            let header = header_exec();
            in_section = bytes_eq(t.as_slice(), header.as_slice());
        } else if in_section {
            match split_once_bytes(t.as_slice(), 61) {
                Some((k, v)) => {
                    let key = trim(k.as_slice());
                    let val = trim(v.as_slice());
                    let key_s = key.as_slice();
                    if bytes_eq(key_s, name_key_exec().as_slice()) && name.len() == 0 {
                        name = val;
                    } else if bytes_eq(key_s, generic_name_key_exec().as_slice())
                        && generic_name.len() == 0 {
                        generic_name = val;
                    } else if bytes_eq(key_s, exec_key_exec().as_slice()) && exec_cmd.len() == 0 {
                        exec_cmd = clean_exec(val.as_slice());
                    } else if bytes_eq(key_s, icon_key_exec().as_slice()) && icon.len() == 0 {
                        icon = val;
                    } else if bytes_eq(key_s, categories_key_exec().as_slice()) {
                        categories = parse_categories(val.as_slice());
                    } else if bytes_eq(key_s, no_display_key_exec().as_slice()) {
                        let folded = to_lower(val.as_slice());
                        no_display = bytes_eq(folded.as_slice(), true_bytes_exec().as_slice());
                    } else if bytes_eq(key_s, hidden_key_exec().as_slice()) {
                        let folded = to_lower(val.as_slice());
                        hidden = bytes_eq(folded.as_slice(), true_bytes_exec().as_slice());
                    }
                },
                None => {},
            }
        }
        i += 1;
    }
    proof {
        assert(lines.deep_view().take(lines.deep_view().len() as int) =~= lines.deep_view());
    }
    if no_display || hidden {
        return None;
    }
    if name.len() == 0 || exec_cmd.len() == 0 {
        return None;
    }
    Some(DesktopFields { name, generic_name, exec_cmd, icon, categories })
}

} // verus!
