//! Small string-building and string-scanning helpers shared by the flag
//! parser, the help renderer and the list formatter.

use vstd::prelude::*;
use vstd::string::StrSliceExecFns;
use vstd::string::StringExecFns;

verus! {

/// Append `formatted_string` to the end of `string`.
pub fn write(string: &mut String, formatted_string: &str)
    ensures
        final(string)@ == old(string)@ + formatted_string@,
{
    string.append(formatted_string);
}

/// Relies on std's `String::push`: appends the given character to the end of
/// the string.
#[verifier::external_body]
pub fn push_char(s: &mut String, c: char)
    ensures
        final(s)@ == old(s)@.push(c),
{
    s.push(c);
}

/// `n` space characters.
pub open spec fn spec_spaces(n: nat) -> Seq<char> {
    Seq::new(n, |i: int| ' ')
}

/// Append `n` spaces to `s`.
pub fn push_spaces(s: &mut String, n: usize)
    ensures
        final(s)@ == old(s)@ + spec_spaces(n as nat),
{
    let mut i: usize = 0;
    while i < n
        invariant
            i <= n,
            s@ == old(s)@ + spec_spaces(i as nat),
        decreases n - i,
    {
        push_char(s, ' ');
        i += 1;
        proof {
            assert((old(s)@ + spec_spaces((i - 1) as nat)).push(' ') =~= old(s)@ + spec_spaces(
                i as nat,
            ));
        }
    }
    proof {
        assert(s@ =~= old(s)@ + spec_spaces(n as nat));
    }
}

/// Character-wise string equality.
pub fn str_eq(a: &str, b: &str) -> (r: bool)
    ensures
        r == (a@ == b@),
{
    let n = a.unicode_len();
    if n != b.unicode_len() {
        return false;
    }
    let mut i: usize = 0;
    while i < n
        invariant
            n == a@.len(),
            n == b@.len(),
            i <= n,
            forall|j: int| 0 <= j < i ==> a@[j] == b@[j],
        decreases n - i,
    {
        if a.get_char(i) != b.get_char(i) {
            return false;
        }
        i += 1;
    }
    proof {
        assert(a@ =~= b@);
    }
    true
}

/// The position of the first occurrence of `c` in `s`, if any.
pub open spec fn spec_find_char(s: Seq<char>, c: char) -> Option<int>
    decreases s.len(),
{
    if s.len() == 0 {
        None
    } else if s[0] == c {
        Some(0)
    } else {
        match spec_find_char(s.drop_first(), c) {
            None => None,
            Some(k) => Some(k + 1),
        }
    }
}

/// `spec_find_char` finds the first occurrence: at the reported position the
/// character is `c` and everything before it is not; `None` means `c` does
/// not occur at all.
pub proof fn lemma_find_char(s: Seq<char>, c: char)
    ensures
        match spec_find_char(s, c) {
            Some(k) => 0 <= k < s.len() && s[k] == c && forall|j: int| 0 <= j < k ==> s[j] != c,
            None => forall|j: int| 0 <= j < s.len() ==> s[j] != c,
        },
    decreases s.len(),
{
    if s.len() != 0 && s[0] != c {
        lemma_find_char(s.drop_first(), c);
        match spec_find_char(s.drop_first(), c) {
            None => {
                assert forall|j: int| 0 <= j < s.len() implies s[j] != c by {
                    if j > 0 {
                        assert(s.drop_first()[j - 1] == s[j]);
                    }
                }
            },
            Some(k) => {
                assert(s.drop_first()[k] == s[k + 1]);
                assert forall|j: int| 0 <= j < k + 1 implies s[j] != c by {
                    if j > 0 {
                        assert(s.drop_first()[j - 1] == s[j]);
                    }
                }
            },
        }
    }
}

/// Scan `s` for the first occurrence of `c`.
pub fn find_char_str(s: &str, c: char) -> (r: Option<usize>)
    ensures
        match r {
            Some(k) => spec_find_char(s@, c) == Some(k as int),
            None => spec_find_char(s@, c) == None::<int>,
        },
{
    let n = s.unicode_len();
    let mut i: usize = 0;
    while i < n
        invariant
            n == s@.len(),
            i <= n,
            forall|j: int| 0 <= j < i ==> s@[j] != c,
        decreases n - i,
    {
        if s.get_char(i) == c {
            proof {
                lemma_find_char(s@, c);
            }
            return Some(i);
        }
        i += 1;
    }
    proof {
        lemma_find_char(s@, c);
    }
    None
}


/// Name columns per line: four for the plain list, two when forms are
/// shown.
pub open spec fn spec_list_columns(with_forms: bool) -> nat {
    if !with_forms {
        4
    } else {
        2
    }
}

/// The character budget of one column, limiting each line to 80 columns.
pub open spec fn spec_list_column_size(with_forms: bool) -> nat {
    (80 as nat) / spec_list_columns(with_forms)
}

/// The rendered form names from position `j` on, each preceded by a space.
pub open spec fn spec_forms_text_from(forms: Seq<Seq<char>>, j: int) -> Seq<char>
    decreases forms.len() - j,
{
    if j < 0 || j >= forms.len() {
        Seq::empty()
    } else {
        seq![' '] + forms[j] + spec_forms_text_from(forms, j + 1)
    }
}

/// The width of the rendered form names from position `j` on.
pub open spec fn spec_forms_pad_from(forms: Seq<Seq<char>>, j: int) -> nat
    decreases forms.len() - j,
{
    if j < 0 || j >= forms.len() {
        0
    } else {
        1 + forms[j].len() + spec_forms_pad_from(forms, j + 1)
    }
}

/// The width one record occupies before its trailing spaces: its name, and
/// with forms also the separator and the forms (or the `N/A` marker).
pub open spec fn spec_entry_pad(p: crate::pokemon::PokemonView, with_forms: bool) -> nat {
    p.name_en.len() + (if with_forms {
        if p.forms.len() == 0 {
            5 as nat
        } else {
            1 + spec_forms_pad_from(p.forms, 0)
        }
    } else {
        0 as nat
    })
}

/// One record's cell in the listing: a line break every full row, the
/// name, the forms when requested, and spaces up to the column size.
pub open spec fn spec_list_entry(p: crate::pokemon::PokemonView, i: int, with_forms: bool) -> Seq<
    char,
> {
    (if i > 0 && i % (spec_list_columns(with_forms) as int) == 0 {
        seq!['\n']
    } else {
        Seq::empty()
    }) + p.name_en + (if with_forms {
        seq![':'] + (if p.forms.len() == 0 {
            " N/A"@
        } else {
            spec_forms_text_from(p.forms, 0)
        })
    } else {
        Seq::empty()
    }) + spec_spaces((spec_list_column_size(with_forms) - spec_entry_pad(p, with_forms)) as nat)
}

/// The cells of the records from position `i` on.
pub open spec fn spec_list_entries_from(
    pokes: Seq<crate::pokemon::PokemonView>,
    i: int,
    with_forms: bool,
) -> Seq<char>
    decreases pokes.len() - i,
{
    if i < 0 || i >= pokes.len() {
        Seq::empty()
    } else {
        spec_list_entry(pokes[i], i, with_forms) + spec_list_entries_from(
            pokes,
            i + 1,
            with_forms,
        )
    }
}

/// The whole listing: a header when forms are shown, then every record's
/// cell in dataset order.
pub open spec fn spec_list_output(
    pokes: Seq<crate::pokemon::PokemonView>,
    with_forms: bool,
) -> Seq<char> {
    (if with_forms {
        "Pokemon Name: Forms\n"@
    } else {
        Seq::empty()
    }) + spec_list_entries_from(pokes, 0, with_forms)
}

/// Render the column-aligned listing of every record, optionally with the
/// form names.  Every record must fit its column; a name wider than the
/// column budget has no rendering in this layout.
#[verifier::rlimit(100)]
pub fn format_command_list_output(pokes: &[crate::pokemon::Pokemon], args: &crate::args::Args) -> (r:
    String)
    requires
        forall|k: int|
            0 <= k < pokes@.len() ==> spec_entry_pad(
                #[trigger] pokes.deep_view()[k],
                args.list_with_forms,
            ) <= spec_list_column_size(args.list_with_forms),
    ensures
        r@ == spec_list_output(pokes.deep_view(), args.list_with_forms),
{
    let ghost ps = pokes.deep_view();
    let ghost wf = args.list_with_forms;

    // Names per line: four columns for the plain list, two for the list
    // with forms.
    let no_of_columns: u8 = if !args.list_with_forms {
        4
    } else {
        2
    };
    // The padding budget per name, limiting each line length to 80.
    let column_size: u8 = 80 / no_of_columns;

    let mut result = String::new();
    if args.list_with_forms {
        write(&mut result, "Pokemon Name: Forms\n");
    }
    let mut i: usize = 0;
    while i < pokes.len()
        invariant
            ps == pokes.deep_view(),
            wf == args.list_with_forms,
            pokes@.len() == ps.len(),
            i <= ps.len(),
            forall|k: int|
                0 <= k < ps.len() ==> spec_entry_pad(#[trigger] ps[k], wf)
                    <= spec_list_column_size(wf),
            no_of_columns as nat == spec_list_columns(wf),
            column_size as nat == spec_list_column_size(wf),
            result@ + spec_list_entries_from(ps, i as int, wf) == spec_list_output(ps, wf),
        decreases pokes@.len() - i,
    {
        let poke = &pokes[i];
        let ghost pre = result@;
        proof {
            assert(poke@ == ps[i as int]);
            assert(spec_entry_pad(ps[i as int], wf) <= spec_list_column_size(wf));
        }
        let mut padding: usize = 0;

        if i > 0 && i % (no_of_columns as usize) == 0 {
            write(&mut result, "\n");
        }

        let pokemon_name = &poke.name_en;
        write(&mut result, pokemon_name.as_str());
        padding += pokemon_name.as_str().unicode_len();

        if args.list_with_forms {
            write(&mut result, ":");
            if poke.forms.len() == 0 {
                // `_N/A` (4) and `:` (1).
                padding += 5;
                write(&mut result, " N/A");
            } else {
                // The `:` before the forms.
                padding += 1;
                let ghost base = result@;
                let ghost pad0 = padding as nat;
                let mut j: usize = 0;
                while j < poke.forms.len()
                    invariant
                        poke@ == ps[i as int],
                        i < ps.len(),
                        wf,
                        spec_entry_pad(poke@, wf) <= spec_list_column_size(wf),
                        poke@.forms.len() > 0,
                        j <= poke@.forms.len(),
                        pad0 == poke@.name_en.len() + 1,
                        padding as nat + spec_forms_pad_from(poke@.forms, j as int)
                            == spec_entry_pad(poke@, true),
                        result@ + spec_forms_text_from(poke@.forms, j as int) == base
                            + spec_forms_text_from(poke@.forms, 0),
                    decreases poke@.forms.len() - j,
                {
                    let ghost prev = result@;
                    let form = &poke.forms[j];
                    proof {
                        assert(form@ == poke@.forms[j as int]);
                        reveal_strlit(" ");
                    }
                    write(&mut result, " ");
                    write(&mut result, form.as_str());
                    padding += 1 + form.as_str().unicode_len();
                    j += 1;
                    proof {
                        assert(result@ =~= prev + (seq![' '] + poke@.forms[j - 1]));
                        assert(result@ + spec_forms_text_from(poke@.forms, j as int) =~= prev
                            + spec_forms_text_from(poke@.forms, (j - 1) as int));
                    }
                }
                proof {
                    assert(spec_forms_text_from(poke@.forms, j as int) == Seq::<char>::empty());
                    assert(result@ =~= base + spec_forms_text_from(poke@.forms, 0));
                }
            }
        }

        let pad = column_size as usize - padding;
        push_spaces(&mut result, pad);
        i += 1;
        proof {
            reveal_strlit("\n");
            reveal_strlit(":");
            reveal_strlit(" N/A");
            assert(result@ =~= pre + spec_list_entry(ps[i - 1], i - 1, wf));
            assert(result@ + spec_list_entries_from(ps, i as int, wf) =~= pre
                + spec_list_entries_from(ps, (i - 1) as int, wf));
        }
    }
    proof {
        assert(result@ =~= spec_list_output(ps, wf));
    }
    result
}

} // verus!
