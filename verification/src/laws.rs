//! The laws the parser obeys, stated over the parse model and proved once
//! and for all: what holds of every valid flag list, of conflicting mode
//! flags, of repeated write-once flags, and of the help/version
//! short-circuit.

use vstd::prelude::*;

use crate::args::ArgsView;
use crate::args::Mode;
use crate::args::SpecialMode;
use crate::args::spec_default_args;
use crate::flags::FlagId;
use crate::flags::FlagInfoKind;
use crate::flags::FlagInfoView;
use crate::flags::lemma_find_key;
use crate::flags::spec_find_key;
use crate::flags::spec_info_key;
use crate::flags::spec_update_switch;
use crate::flags::spec_update_value;
use crate::parse::ParseErrorView;
use crate::parse::ParseOutcome;
use crate::parse::lemma_spec_infos_concrete;
use crate::parse::spec_infos;
use crate::parse::spec_keys;
use crate::parse::spec_long;
use crate::parse::spec_lookup;
use crate::parse::spec_outcome;
use crate::parse::spec_parse_from;
use crate::parse::spec_shorts;
use crate::util::lemma_find_char;
use crate::util::spec_find_char;

verus! {

/// The standard flag-table entry of a flag's long name.
pub open spec fn spec_long_entry(id: FlagId) -> FlagInfoView {
    FlagInfoView { flag: id, name: Ok(id.spec_name_long()), kind: FlagInfoKind::Standard }
}

/// What holds of every long flag name: it is at least two characters, it
/// contains no `=`, it is neither `help` nor `version`, and looking it up
/// resolves to the flag's own standard entry.
pub proof fn lemma_long_name_facts(id: FlagId)
    ensures
        id.spec_name_long().len() >= 2,
        spec_find_char(id.spec_name_long(), '=') == None::<int>,
        id.spec_name_long() != "help"@,
        id.spec_name_long() != "version"@,
        spec_lookup(id.spec_name_long()) == Some(spec_long_entry(id)),
{
    lemma_spec_infos_concrete();
    reveal_strlit("name");
    reveal_strlit("list");
    reveal_strlit("show-forms");
    reveal_strlit("shiny");
    reveal_strlit("form");
    reveal_strlit("random");
    reveal_strlit("random-by-name");
    reveal_strlit("help");
    reveal_strlit("version");
    let nm = id.spec_name_long();
    lemma_find_char(nm, '=');
    match spec_find_char(nm, '=') {
        Some(k) => {
            assert(nm[k] != '=');
        },
        None => {},
    }
    lemma_find_key(spec_keys(), nm);
    match spec_find_key(spec_keys(), nm) {
        Some(k) => {
            assert(spec_keys().len() == spec_infos().len());
            assert(spec_keys()[k] == spec_info_key(spec_infos()[k]));
            match id {
                FlagId::Name => {
                    assert(spec_keys()[0] == nm);
                    assert(k == 0);
                },
                FlagId::List => {
                    assert(spec_keys()[2] == nm);
                    assert(k == 2);
                },
                FlagId::ShowForms => {
                    assert(spec_keys()[4] == nm);
                    assert(k == 4);
                },
                FlagId::Shiny => {
                    assert(spec_keys()[5] == nm);
                    assert(k == 5);
                },
                FlagId::Form => {
                    assert(spec_keys()[7] == nm);
                    assert(k == 7);
                },
                FlagId::Random => {
                    assert(spec_keys()[9] == nm);
                    assert(k == 9);
                },
                FlagId::RandomByNames => {
                    assert(spec_keys()[11] == nm);
                    assert(k == 11);
                },
            }
        },
        None => {
            match id {
                FlagId::Name => {
                    assert(spec_keys()[0] == nm);
                },
                FlagId::List => {
                    assert(spec_keys()[2] == nm);
                },
                FlagId::ShowForms => {
                    assert(spec_keys()[4] == nm);
                },
                FlagId::Shiny => {
                    assert(spec_keys()[5] == nm);
                },
                FlagId::Form => {
                    assert(spec_keys()[7] == nm);
                },
                FlagId::Random => {
                    assert(spec_keys()[9] == nm);
                },
                FlagId::RandomByNames => {
                    assert(spec_keys()[11] == nm);
                },
            }
            assert(false);
        },
    }
}

/// An empty `--random-by-name` value is rejected before any mode
/// transition: whatever the current state, even one in which the
/// transition itself would succeed, the update fails with the empty-value
/// error and produces no new state.
pub proof fn law_empty_names_rejected(st: ArgsView)
    ensures
        spec_update_value(FlagId::RandomByNames, Seq::empty(), st) == Err::<
            ArgsView,
            ParseErrorView,
        >(ParseErrorView::EmptyValue { flag: FlagId::RandomByNames }),
{
}

/// A second value for `--name` is always an overwrite error once a name is
/// set, whatever the value and the rest of the state.
pub proof fn law_name_overwrite_rejected(st: ArgsView, v: Seq<char>)
    requires
        st.pokemon_name.len() > 0,
    ensures
        spec_update_value(FlagId::Name, v, st) == Err::<ArgsView, ParseErrorView>(
            ParseErrorView::Overwrite { flag: FlagId::Name, prev: st.pokemon_name, new: v },
        ),
{
}

/// A second value for `--form` is always an overwrite error once a form is
/// set, whatever the value and the rest of the state.
pub proof fn law_form_overwrite_rejected(st: ArgsView, prev: Seq<char>, v: Seq<char>)
    requires
        st.form == Some(prev),
    ensures
        spec_update_value(FlagId::Form, v, st) == Err::<ArgsView, ParseErrorView>(
            ParseErrorView::Overwrite { flag: FlagId::Form, prev, new: v },
        ),
{
}

/// When the scan completes and a special mode was recorded, the outcome is
/// that special mode: no argument record is handed on to mode dispatch.
pub proof fn law_special_preempts(toks: Seq<Seq<char>>, st: ArgsView, sp: SpecialMode)
    requires
        spec_parse_from(toks, 0, false, spec_default_args()) == Ok::<ArgsView, ParseErrorView>(st),
        st.special == Some(sp),
    ensures
        spec_outcome(toks) == ParseOutcome::Special(sp),
{
}

/// A `-h` token processed as a flag can never fail and touches nothing but
/// the special outcome: it records the short-help request and the scan
/// goes on unchanged.
pub proof fn law_help_short_token(toks: Seq<Seq<char>>, i: int, st: ArgsView)
    requires
        0 <= i < toks.len(),
        toks[i] == seq!['-', 'h'],
    ensures
        spec_parse_from(toks, i, false, st) == spec_parse_from(
            toks,
            i + 1,
            false,
            ArgsView { special: Some(SpecialMode::HelpShort), ..st },
        ),
{
    let t = toks[i];
    let st2 = ArgsView { special: Some(SpecialMode::HelpShort), ..st };
    assert(spec_parse_from(toks, i, false, st) == spec_shorts(t, 1, toks, i + 1, st));
    assert(spec_shorts(t, 1, toks, i + 1, st) == spec_shorts(t, 2, toks, i + 1, st2));
    assert(spec_shorts(t, 2, toks, i + 1, st2) == spec_parse_from(toks, i + 1, false, st2));
}

/// A `-v` token processed as a flag can never fail and touches nothing but
/// the special outcome.
pub proof fn law_version_short_token(toks: Seq<Seq<char>>, i: int, st: ArgsView)
    requires
        0 <= i < toks.len(),
        toks[i] == seq!['-', 'v'],
    ensures
        spec_parse_from(toks, i, false, st) == spec_parse_from(
            toks,
            i + 1,
            false,
            ArgsView { special: Some(SpecialMode::VersionShort), ..st },
        ),
{
    let t = toks[i];
    let st2 = ArgsView { special: Some(SpecialMode::VersionShort), ..st };
    assert(spec_parse_from(toks, i, false, st) == spec_shorts(t, 1, toks, i + 1, st));
    assert(spec_shorts(t, 1, toks, i + 1, st) == spec_shorts(t, 2, toks, i + 1, st2));
    assert(spec_shorts(t, 2, toks, i + 1, st2) == spec_parse_from(toks, i + 1, false, st2));
}

/// A `--help` token processed as a flag can never fail and touches nothing
/// but the special outcome: it records the long-help request and the scan
/// goes on unchanged, before any file I/O could be attempted.
pub proof fn law_help_long_token(toks: Seq<Seq<char>>, i: int, st: ArgsView)
    requires
        0 <= i < toks.len(),
        toks[i] == "--help"@,
    ensures
        spec_parse_from(toks, i, false, st) == spec_parse_from(
            toks,
            i + 1,
            false,
            ArgsView { special: Some(SpecialMode::HelpLong), ..st },
        ),
{
    reveal_strlit("--help");
    reveal_strlit("help");
    let t = toks[i];
    let st2 = ArgsView { special: Some(SpecialMode::HelpLong), ..st };
    assert(t.len() == 6);
    assert(spec_parse_from(toks, i, false, st) == spec_long(t, toks, i + 1, st));
    let body = t.skip(2);
    assert(body =~= "help"@);
    lemma_find_char(body, '=');
    match spec_find_char(body, '=') {
        Some(k) => {
            assert(body[k] != '=');
        },
        None => {},
    }
    assert(spec_long(t, toks, i + 1, st) == spec_parse_from(toks, i + 1, false, st2));
}

/// A `--version` token processed as a flag can never fail and touches
/// nothing but the special outcome.
pub proof fn law_version_long_token(toks: Seq<Seq<char>>, i: int, st: ArgsView)
    requires
        0 <= i < toks.len(),
        toks[i] == "--version"@,
    ensures
        spec_parse_from(toks, i, false, st) == spec_parse_from(
            toks,
            i + 1,
            false,
            ArgsView { special: Some(SpecialMode::VersionLong), ..st },
        ),
{
    reveal_strlit("--version");
    reveal_strlit("version");
    reveal_strlit("help");
    let t = toks[i];
    let st2 = ArgsView { special: Some(SpecialMode::VersionLong), ..st };
    assert(t.len() == 9);
    assert(spec_parse_from(toks, i, false, st) == spec_long(t, toks, i + 1, st));
    let body = t.skip(2);
    assert(body =~= "version"@);
    lemma_find_char(body, '=');
    match spec_find_char(body, '=') {
        Some(k) => {
            assert(body[k] != '=');
        },
        None => {},
    }
    assert(spec_long(t, toks, i + 1, st) == spec_parse_from(toks, i + 1, false, st2));
}


/// One requested flag invocation: a flag, and the value token it is given
/// if it takes one.
#[verifier::ext_equal]
pub ghost struct Invocation {
    pub flag: FlagId,
    pub value: Option<Seq<char>>,
}

/// A well-shaped invocation: switches carry no value, value-taking flags
/// carry one, and a `--random-by-name` value is non-empty.
pub open spec fn spec_inv_wf(inv: Invocation) -> bool {
    match inv.value {
        Some(v) => !inv.flag.spec_is_switch() && (inv.flag == FlagId::RandomByNames ==> v.len()
            > 0),
        None => inv.flag.spec_is_switch(),
    }
}

/// Whether the flag selects an operating mode.
pub open spec fn spec_is_mode_flag(id: FlagId) -> bool {
    match id {
        FlagId::List => true,
        FlagId::Random => true,
        FlagId::RandomByNames => true,
        _ => false,
    }
}

/// A valid, non-conflicting flag list: every invocation well-shaped, at
/// most one mode-selecting flag, and each write-once flag at most once.
pub open spec fn spec_invs_valid(invs: Seq<Invocation>) -> bool {
    &&& forall|k: int| 0 <= k < invs.len() ==> spec_inv_wf(#[trigger] invs[k])
    &&& forall|k: int, l: int|
        0 <= k < l < invs.len() ==> !(spec_is_mode_flag(#[trigger] invs[k].flag)
            && spec_is_mode_flag(#[trigger] invs[l].flag))
    &&& forall|k: int, l: int|
        0 <= k < l < invs.len() ==> !(#[trigger] invs[k].flag == FlagId::Name
            && #[trigger] invs[l].flag == FlagId::Name)
    &&& forall|k: int, l: int|
        0 <= k < l < invs.len() ==> !(#[trigger] invs[k].flag == FlagId::Form
            && #[trigger] invs[l].flag == FlagId::Form)
}

/// The tokens one invocation renders to: the flag in long form, then the
/// value token if there is one.
pub open spec fn spec_render_one(inv: Invocation) -> Seq<Seq<char>> {
    seq![seq!['-', '-'] + inv.flag.spec_name_long()] + (match inv.value {
        Some(v) => seq![v],
        None => Seq::<Seq<char>>::empty(),
    })
}

/// The token list a whole invocation list renders to.
pub open spec fn spec_render(invs: Seq<Invocation>) -> Seq<Seq<char>>
    decreases invs.len(),
{
    if invs.len() == 0 {
        Seq::empty()
    } else {
        spec_render_one(invs[0]) + spec_render(invs.drop_first())
    }
}

/// The effect of one invocation on the in-progress arguments.
pub open spec fn spec_apply_one(inv: Invocation, st: ArgsView) -> Result<
    ArgsView,
    ParseErrorView,
> {
    match inv.value {
        Some(v) => spec_update_value(inv.flag, v, st),
        None => spec_update_switch(inv.flag, true, st),
    }
}

/// The fold of a whole invocation list over the in-progress arguments.
pub open spec fn spec_apply_invs(invs: Seq<Invocation>, st: ArgsView) -> Result<
    ArgsView,
    ParseErrorView,
>
    decreases invs.len(),
{
    if invs.len() == 0 {
        Ok(st)
    } else {
        match spec_apply_one(invs[0], st) {
            Err(e) => Err(e),
            Ok(st2) => spec_apply_invs(invs.drop_first(), st2),
        }
    }
}

/// Parsing one rendered invocation applies exactly that invocation's
/// effect, and on success the scan continues right after its tokens.
pub proof fn lemma_one_inv(toks: Seq<Seq<char>>, i: int, inv: Invocation, st: ArgsView)
    requires
        spec_inv_wf(inv),
        0 <= i,
        i + spec_render_one(inv).len() <= toks.len(),
        toks[i] == spec_render_one(inv)[0],
        match inv.value {
            Some(v) => toks[i + 1] == v,
            None => true,
        },
    ensures
        spec_parse_from(toks, i, false, st) == (match spec_apply_one(inv, st) {
            Err(e) => Err::<ArgsView, ParseErrorView>(e),
            Ok(st2) => spec_parse_from(toks, i + spec_render_one(inv).len(), false, st2),
        }),
{
    lemma_long_name_facts(inv.flag);
    let nm = inv.flag.spec_name_long();
    let t = toks[i];
    assert(spec_render_one(inv)[0] == seq!['-', '-'] + nm);
    assert(t.len() == 2 + nm.len());
    assert(t[0] == '-');
    assert(t[1] == '-');
    assert(spec_parse_from(toks, i, false, st) == spec_long(t, toks, i + 1, st));
    let body = t.skip(2);
    assert(body =~= nm);
    assert(spec_find_char(body, '=') == None::<int>);
    match inv.value {
        None => {
            assert(spec_render_one(inv).len() == 1);
            match spec_update_switch(inv.flag, true, st) {
                Err(e) => {
                    assert(spec_long(t, toks, i + 1, st) == Err::<ArgsView, ParseErrorView>(e));
                },
                Ok(st2) => {
                    assert(spec_long(t, toks, i + 1, st) == spec_parse_from(
                        toks,
                        i + 1,
                        false,
                        st2,
                    ));
                },
            }
        },
        Some(v) => {
            assert(spec_render_one(inv).len() == 2);
            assert(i + 1 < toks.len());
            match spec_update_value(inv.flag, v, st) {
                Err(e) => {
                    assert(spec_long(t, toks, i + 1, st) == Err::<ArgsView, ParseErrorView>(e));
                },
                Ok(st2) => {
                    assert(spec_long(t, toks, i + 1, st) == spec_parse_from(
                        toks,
                        i + 2,
                        false,
                        st2,
                    ));
                },
            }
        },
    }
}

/// What a caller must know of the in-progress state for a flag list to go
/// through: the mode is untouched if a mode flag is still to come, and the
/// write-once fields are unset if their flags are still to come.
pub open spec fn spec_compat(st: ArgsView, invs: Seq<Invocation>) -> bool {
    forall|k: int|
        0 <= k < invs.len() ==> {
            &&& (spec_is_mode_flag((#[trigger] invs[k]).flag) ==> st.mode == Mode::Regular)
            &&& (invs[k].flag == FlagId::Name ==> st.pokemon_name.len() == 0)
            &&& (invs[k].flag == FlagId::Form ==> st.form is None)
        }
}

/// The induction behind the validity law: from any compatible state, a
/// valid invocation list parses without error and its effect is the fold
/// of the flags' effects; the special outcome is never touched.
proof fn lemma_parse_render(toks: Seq<Seq<char>>, i: int, invs: Seq<Invocation>, st: ArgsView)
    requires
        0 <= i <= toks.len(),
        toks.skip(i) == spec_render(invs),
        spec_invs_valid(invs),
        spec_compat(st, invs),
    ensures
        spec_apply_invs(invs, st) is Ok,
        spec_parse_from(toks, i, false, st) == spec_apply_invs(invs, st),
        (match spec_apply_invs(invs, st) {
            Ok(st2) => st2.special == st.special,
            Err(_) => true,
        }),
    decreases invs.len(),
{
    if invs.len() == 0 {
        assert(toks.skip(i).len() == 0);
        assert(i == toks.len());
    } else {
        let inv0 = invs[0];
        let rest = invs.drop_first();
        let rt = spec_render(invs);
        let c = spec_render_one(inv0).len();
        assert(rt == spec_render_one(inv0) + spec_render(rest));
        assert(toks[i] == toks.skip(i)[0]);
        assert(rt[0] == spec_render_one(inv0)[0]);
        assert(c == 1 || c == 2);
        assert(toks.len() - i == rt.len());
        assert(rt.len() == c + spec_render(rest).len());
        if inv0.value is Some {
            assert(toks[i + 1] == toks.skip(i)[1]);
            assert(rt[1] == (match inv0.value {
                Some(v) => v,
                None => Seq::empty(),
            }));
        }
        lemma_one_inv(toks, i, inv0, st);
        // The first invocation goes through, by compatibility.
        assert(spec_inv_wf(inv0));
        let step = spec_apply_one(inv0, st);
        assert(step is Ok) by {
            match inv0.value {
                Some(v) => {
                    if inv0.flag == FlagId::RandomByNames {
                        assert(v.len() > 0);
                        assert(st.mode == Mode::Regular);
                    }
                },
                None => {},
            }
        }
        let st2 = step->Ok_0;
        // The new state is compatible with the remaining invocations.
        assert forall|k: int| 0 <= k < rest.len() implies {
            &&& (spec_is_mode_flag((#[trigger] rest[k]).flag) ==> st2.mode == Mode::Regular)
            &&& (rest[k].flag == FlagId::Name ==> st2.pokemon_name.len() == 0)
            &&& (rest[k].flag == FlagId::Form ==> st2.form is None)
        } by {
            assert(rest[k] == invs[k + 1]);
            assert(spec_inv_wf(invs[k + 1]));
            if spec_is_mode_flag(rest[k].flag) {
                assert(!spec_is_mode_flag(inv0.flag));
            }
            if rest[k].flag == FlagId::Name {
                assert(inv0.flag != FlagId::Name);
            }
            if rest[k].flag == FlagId::Form {
                assert(inv0.flag != FlagId::Form);
            }
        }
        assert(spec_invs_valid(rest)) by {
            assert forall|k: int| 0 <= k < rest.len() implies spec_inv_wf(#[trigger] rest[k]) by {
                assert(rest[k] == invs[k + 1]);
            }
            assert forall|k: int, l: int| 0 <= k < l < rest.len() implies !(spec_is_mode_flag(
                #[trigger] rest[k].flag,
            ) && spec_is_mode_flag(#[trigger] rest[l].flag)) by {
                assert(rest[k] == invs[k + 1]);
                assert(rest[l] == invs[l + 1]);
            }
            assert forall|k: int, l: int| 0 <= k < l < rest.len() implies !(#[trigger] rest[k].flag
                == FlagId::Name && #[trigger] rest[l].flag == FlagId::Name) by {
                assert(rest[k] == invs[k + 1]);
                assert(rest[l] == invs[l + 1]);
            }
            assert forall|k: int, l: int| 0 <= k < l < rest.len() implies !(#[trigger] rest[k].flag
                == FlagId::Form && #[trigger] rest[l].flag == FlagId::Form) by {
                assert(rest[k] == invs[k + 1]);
                assert(rest[l] == invs[l + 1]);
            }
        }
        assert(toks.skip(i + c) =~= spec_render(rest)) by {
            assert forall|m: int| 0 <= m < toks.skip(i + c).len() implies toks.skip(i + c)[m]
                == spec_render(rest)[m] by {
                assert(toks.skip(i + c)[m] == toks[i + c + m]);
                assert(toks[i + c + m] == toks.skip(i)[c + m]);
                assert(rt[c + m] == spec_render(rest)[m]);
            }
        }
        lemma_parse_render(toks, i + c, rest, st2);
    }
}

/// For every valid list of non-conflicting flag invocations, given in long
/// form, parsing succeeds and the arguments reflect exactly the supplied
/// values: the result is the fold of the flags' effects over the defaults,
/// so unsupplied fields keep their default values, and the outcome is the
/// parsed record itself.
pub proof fn law_valid_flags_parse(invs: Seq<Invocation>)
    requires
        spec_invs_valid(invs),
    ensures
        spec_apply_invs(invs, spec_default_args()) is Ok,
        spec_parse_from(spec_render(invs), 0, false, spec_default_args()) == spec_apply_invs(
            invs,
            spec_default_args(),
        ),
        spec_outcome(spec_render(invs)) == ParseOutcome::Parsed(
            spec_apply_invs(invs, spec_default_args())->Ok_0,
        ),
{
    let toks = spec_render(invs);
    assert(toks.skip(0) =~= toks);
    lemma_parse_render(toks, 0, invs, spec_default_args());
}

/// Supplying two mode-selecting flags together always fails with a
/// mode-conflict error naming the second flag, whichever two mode flags
/// they are and in whichever order they come.
pub proof fn law_mode_conflict(a: Invocation, b: Invocation)
    requires
        spec_inv_wf(a),
        spec_inv_wf(b),
        spec_is_mode_flag(a.flag),
        spec_is_mode_flag(b.flag),
    ensures
        spec_outcome(spec_render(seq![a, b])) == ParseOutcome::Failed(
            ParseErrorView::ModeConflict { flag: b.flag },
        ),
{
    let invs = seq![a, b];
    let toks = spec_render(invs);
    let rest = invs.drop_first();
    assert(rest =~= seq![b]);
    assert(spec_render(rest) == spec_render_one(b) + spec_render(rest.drop_first()));
    assert(rest.drop_first() =~= Seq::<Invocation>::empty());
    assert(spec_render(rest) =~= spec_render_one(b));
    assert(toks == spec_render_one(a) + spec_render(rest));
    let ca = spec_render_one(a).len() as int;
    let cb = spec_render_one(b).len() as int;
    assert(toks.len() == ca + cb);
    assert(toks[0] == spec_render_one(a)[0]);
    if a.value is Some {
        assert(toks[1] == (match a.value {
            Some(v) => v,
            None => Seq::empty(),
        }));
    }
    lemma_one_inv(toks, 0, a, spec_default_args());
    let step = spec_apply_one(a, spec_default_args());
    assert(step is Ok);
    let st2 = step->Ok_0;
    assert(st2.mode != Mode::Regular);
    assert(toks[ca] == spec_render_one(b)[0]);
    if b.value is Some {
        assert(toks[ca + 1] == (match b.value {
            Some(v) => v,
            None => Seq::empty(),
        }));
    }
    lemma_one_inv(toks, ca, b, st2);
    assert(spec_apply_one(b, st2) == Err::<ArgsView, ParseErrorView>(
        ParseErrorView::ModeConflict { flag: b.flag },
    ));
}

/// Supplying the same single-value flag twice always fails with an
/// overwrite error, shown for `--name`: once a non-empty name is set, the
/// second value is rejected.
pub proof fn law_name_twice_fails(v1: Seq<char>, v2: Seq<char>)
    requires
        v1.len() > 0,
    ensures
        spec_outcome(seq!["--name"@, v1, "--name"@, v2]) == ParseOutcome::Failed(
            ParseErrorView::Overwrite { flag: FlagId::Name, prev: v1, new: v2 },
        ),
{
    reveal_strlit("--name");
    reveal_strlit("name");
    let inv1 = Invocation { flag: FlagId::Name, value: Some(v1) };
    let inv2 = Invocation { flag: FlagId::Name, value: Some(v2) };
    let toks = seq!["--name"@, v1, "--name"@, v2];
    assert("--name"@ =~= seq!['-', '-'] + "name"@);
    assert(spec_render_one(inv1)[0] == seq!['-', '-'] + "name"@);
    lemma_one_inv(toks, 0, inv1, spec_default_args());
    let step = spec_apply_one(inv1, spec_default_args());
    assert(step is Ok);
    let st2 = step->Ok_0;
    assert(st2.pokemon_name == v1);
    lemma_one_inv(toks, 2, inv2, st2);
    assert(spec_apply_one(inv2, st2) == Err::<ArgsView, ParseErrorView>(
        ParseErrorView::Overwrite { flag: FlagId::Name, prev: v1, new: v2 },
    ));
}

} // verus!
