//! Help output: a column-aligned listing of every flag in the registry,
//! in registry order, under a fixed usage header.

use vstd::prelude::*;
use vstd::string::StrSliceExecFns;
use vstd::string::StringExecFns;

use crate::flags::FlagId;
use crate::flags::flags;
use crate::flags::spec_flags;
use crate::util::push_char;
use crate::util::push_spaces;
use crate::util::spec_spaces;

verus! {

/// Padding between the two columns: flag names and documentation.
pub const PAD: usize = 2;

/// The first column of a flag's help line: its short name if any, its long
/// name, and the placeholder of its value if it takes one.
pub open spec fn spec_col1(id: FlagId) -> Seq<char> {
    (match id.spec_name_short() {
        Some(c) => seq!['-', c] + ", "@,
        None => Seq::empty(),
    }) + "--"@ + id.spec_name_long() + (match id.spec_doc_variable() {
        Some(v) => seq!['='] + v,
        None => Seq::empty(),
    })
}

/// The larger of two lengths.
pub open spec fn spec_nat_max(a: nat, b: nat) -> nat {
    if a > b {
        a
    } else {
        b
    }
}

/// The widest first column among the flags from position `k` on.
pub open spec fn spec_max_col1_from(ids: Seq<FlagId>, k: int) -> nat
    decreases ids.len() - k,
{
    if k < 0 || k >= ids.len() {
        0
    } else {
        spec_nat_max(spec_col1(ids[k]).len(), spec_max_col1_from(ids, k + 1))
    }
}

/// The width every first column is padded to.
pub open spec fn spec_help_width() -> nat {
    spec_max_col1_from(spec_flags(), 0)
}

/// The width is at least as wide as every first column.
pub proof fn lemma_max_col1_ge(ids: Seq<FlagId>, k: int, j: int)
    requires
        0 <= k <= j < ids.len(),
    ensures
        spec_max_col1_from(ids, k) >= spec_col1(ids[j]).len(),
    decreases j - k,
{
    if k < j {
        lemma_max_col1_ge(ids, k + 1, j);
    }
}

/// One help line: the first column, padding to the common width plus the
/// gap, then the short documentation.
pub open spec fn spec_help_entry(id: FlagId, w: nat) -> Seq<char> {
    spec_col1(id) + spec_spaces((w - spec_col1(id).len() + PAD) as nat) + id.spec_doc_short()
}

/// The help lines for the flags from position `k` on, separated by a line
/// break and the listing indent.
pub open spec fn spec_help_entries_from(ids: Seq<FlagId>, k: int, w: nat) -> Seq<char>
    decreases ids.len() - k,
{
    if k < 0 || k >= ids.len() {
        Seq::empty()
    } else {
        (if k > 0 {
            "\n  "@
        } else {
            Seq::empty()
        }) + spec_help_entry(ids[k], w) + spec_help_entries_from(ids, k + 1, w)
    }
}

/// The fixed text above the argument listing.
pub open spec fn spec_help_prefix() -> Seq<char> {
    "Print Pokemon sprites in the terminal.\n\nUsage:\n  poke -l | --list\n  poke -n | --name (pokemon_name)\n  poke -h | --help\n  poke -v | --version\n\nArguments:\n  "@
}

/// The fixed text below the argument listing.
pub open spec fn spec_help_suffix() -> Seq<char> {
    "\n    "@
}

/// The whole short-help text.
pub open spec fn spec_help_short_text() -> Seq<char> {
    spec_help_prefix() + spec_help_entries_from(spec_flags(), 0, spec_help_width())
        + spec_help_suffix()
}

/// Every first column fits in the help layout.
pub proof fn lemma_col1_bound(id: FlagId)
    ensures
        spec_col1(id).len() <= 40,
{
    reveal_strlit("name");
    reveal_strlit("list");
    reveal_strlit("show-forms");
    reveal_strlit("shiny");
    reveal_strlit("form");
    reveal_strlit("random");
    reveal_strlit("random-by-name");
    reveal_strlit("NAME");
    reveal_strlit("FORM");
    reveal_strlit("[Pokemon Names]");
    reveal_strlit(", ");
    reveal_strlit("--");
}

/// The first column of one flag's help line.
fn col1_of(id: FlagId) -> (r: String)
    ensures
        r@ == spec_col1(id),
{
    let mut col = String::new();
    if let Some(c) = id.name_short() {
        push_char(&mut col, '-');
        push_char(&mut col, c);
        crate::util::write(&mut col, ", ");
    }
    crate::util::write(&mut col, "--");
    crate::util::write(&mut col, id.name_long());
    if let Some(v) = id.doc_variable() {
        push_char(&mut col, '=');
        crate::util::write(&mut col, v);
    }
    proof {
        assert(col@ =~= spec_col1(id));
    }
    col
}

/// Generate the short documentation, shown for `-h`: a usage header and
/// one column-aligned line per flag, in registry order.
pub fn help_short() -> (r: String)
    ensures
        r@ == spec_help_short_text(),
{
    let flag_list = flags();
    let ghost ids = spec_flags();

    // First pass: the two columns of every flag, and the width of the
    // widest first column.
    let mut cols1: Vec<String> = Vec::new();
    let mut cols2: Vec<String> = Vec::new();
    let mut max_col1: usize = 0;
    let mut i: usize = 0;
    while i < flag_list.len()
        invariant
            flag_list@ == ids,
            ids == spec_flags(),
            i <= ids.len(),
            cols1@.len() == i,
            cols2@.len() == i,
            forall|k: int| 0 <= k < i ==> cols1.deep_view()[k] == spec_col1(ids[k]),
            forall|k: int| 0 <= k < i ==> cols2.deep_view()[k] == ids[k].spec_doc_short(),
            max_col1 <= 40,
            spec_nat_max(max_col1 as nat, spec_max_col1_from(ids, i as int)) == spec_help_width(),
        decreases flag_list@.len() - i,
    {
        let flag = flag_list[i];
        let col_1 = col1_of(flag);
        let col_2 = String::from_str(flag.doc_short());
        let l = col_1.as_str().unicode_len();
        proof {
            lemma_col1_bound(flag);
        }
        if l > max_col1 {
            max_col1 = l;
        }
        let ghost pre1 = cols1;
        let ghost pre2 = cols2;
        cols1.push(col_1);
        cols2.push(col_2);
        i += 1;
        proof {
            assert forall|k: int| 0 <= k < i implies cols1.deep_view()[k] == spec_col1(ids[k]) by {
                if k < i - 1 {
                    assert(pre1.deep_view()[k] == spec_col1(ids[k]));
                    assert(cols1@[k] == pre1@[k]);
                }
                assert(cols1.deep_view()[k] == cols1@[k]@);
            }
            assert forall|k: int| 0 <= k < i implies cols2.deep_view()[k]
                == ids[k].spec_doc_short() by {
                if k < i - 1 {
                    assert(pre2.deep_view()[k] == ids[k].spec_doc_short());
                    assert(cols2@[k] == pre2@[k]);
                }
                assert(cols2.deep_view()[k] == cols2@[k]@);
            }
        }
    }
    proof {
        assert(spec_max_col1_from(ids, i as int) == 0);
        assert(max_col1 as nat == spec_help_width());
    }

    // Second pass: render the listing, one line per flag.
    let mut val = String::new();
    let mut k: usize = 0;
    while k < cols1.len()
        invariant
            ids == spec_flags(),
            cols1@.len() == ids.len(),
            cols2@.len() == ids.len(),
            k <= ids.len(),
            forall|m: int| 0 <= m < ids.len() ==> cols1.deep_view()[m] == spec_col1(ids[m]),
            forall|m: int| 0 <= m < ids.len() ==> cols2.deep_view()[m] == ids[m].spec_doc_short(),
            max_col1 <= 40,
            max_col1 as nat == spec_help_width(),
            val@ + spec_help_entries_from(ids, k as int, spec_help_width())
                == spec_help_entries_from(ids, 0, spec_help_width()),
        decreases cols1@.len() - k,
    {
        let ghost pre = val@;
        if k > 0 {
            crate::util::write(&mut val, "\n  ");
        }
        let col_1 = &cols1[k];
        let l = col_1.as_str().unicode_len();
        proof {
            assert(cols1.deep_view()[k as int] == col_1@);
            lemma_max_col1_ge(ids, 0, k as int);
        }
        let pad = max_col1 - l + PAD;
        crate::util::write(&mut val, col_1.as_str());
        push_spaces(&mut val, pad);
        crate::util::write(&mut val, cols2[k].as_str());
        k += 1;
        proof {
            let w = spec_help_width();
            assert(cols2.deep_view()[k - 1] == ids[k - 1].spec_doc_short());
            assert(val@ =~= pre + (if k - 1 > 0 {
                "\n  "@
            } else {
                Seq::<char>::empty()
            }) + spec_help_entry(ids[k - 1], w));
            assert(val@ + spec_help_entries_from(ids, k as int, w) =~= pre
                + spec_help_entries_from(ids, (k - 1) as int, w));
        }
    }
    proof {
        assert(val@ =~= spec_help_entries_from(ids, 0, spec_help_width()));
    }

    // Assemble the final text around the listing.
    let mut out = String::from_str(
        "Print Pokemon sprites in the terminal.\n\nUsage:\n  poke -l | --list\n  poke -n | --name (pokemon_name)\n  poke -h | --help\n  poke -v | --version\n\nArguments:\n  ",
    );
    crate::util::write(&mut out, val.as_str());
    crate::util::write(&mut out, "\n    ");
    proof {
        assert(out@ =~= spec_help_short_text());
    }
    out
}

/// The fixed preamble of the long documentation.
pub open spec fn spec_help_long_prefix() -> Seq<char> {
    "pokemon-term prints a Pokemon's sprite in the terminal, chosen by name, at random, or from a list of candidates.\n\nUsage:\n  poke -l | --list\n  poke -n | --name (pokemon_name)\n  poke -h | --help\n  poke -v | --version\n\nArguments:\n  "@
}

/// The whole long-help text: a fuller preamble over the same argument
/// listing.
pub open spec fn spec_help_long_text() -> Seq<char> {
    spec_help_long_prefix() + spec_help_entries_from(spec_flags(), 0, spec_help_width())
        + spec_help_suffix()
}

/// Generate the long documentation, shown for `--help`.
pub fn help_long() -> (r: String)
    ensures
        r@ == spec_help_long_text(),
{
    let listing = help_short();
    // The two texts share the argument listing; carve it out of the short
    // help rather than rendering it twice.
    let n = listing.as_str().unicode_len();
    let ghost ents = spec_help_entries_from(spec_flags(), 0, spec_help_width());
    proof {
        assert(spec_help_prefix().len() == 155) by {
            reveal_strlit(
                "Print Pokemon sprites in the terminal.\n\nUsage:\n  poke -l | --list\n  poke -n | --name (pokemon_name)\n  poke -h | --help\n  poke -v | --version\n\nArguments:\n  ",
            );
        }
        assert(spec_help_suffix().len() == 5) by {
            reveal_strlit("\n    ");
        }
        assert(listing@.len() == spec_help_prefix().len() + ents.len()
            + spec_help_suffix().len());
        assert(n >= 160);
    }
    let body = listing.as_str().substring_char(155, n - 5);
    proof {
        assert forall|m: int| 0 <= m < body@.len() implies body@[m] == ents[m] by {
            assert(body@[m] == listing@[155 + m]);
            assert(listing@[155 + m] == ents[m]);
        }
        assert(body@.len() == ents.len());
        assert(body@ =~= ents);
    }
    let mut out = String::from_str(
        "pokemon-term prints a Pokemon's sprite in the terminal, chosen by name, at random, or from a list of candidates.\n\nUsage:\n  poke -l | --list\n  poke -n | --name (pokemon_name)\n  poke -h | --help\n  poke -v | --version\n\nArguments:\n  ",
    );
    crate::util::write(&mut out, body);
    crate::util::write(&mut out, "\n    ");
    proof {
        assert(out@ =~= spec_help_long_text());
    }
    out
}

} // verus!
