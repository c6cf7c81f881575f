//! The flag registry: every flag the tool recognizes, its names, its value
//! shape, and its effect on the in-progress `Args`; plus the `FlagMap` that
//! resolves a raw name token to a registry entry.

use vstd::prelude::*;
use vstd::string::StrSliceExecFns;
use vstd::string::StringExecFns;

use crate::args::Args;
use crate::args::ArgsView;
use crate::args::Mode;
use crate::args::spec_mode_update;
use crate::parse::ParseError;
use crate::parse::ParseErrorView;
use crate::util::lemma_find_char;
use crate::util::find_char_str;
use crate::util::spec_find_char;
use crate::util::str_eq;

verus! {

/// A value parsed from the command line for one flag: either the on/off
/// state of a switch, or the single token consumed by a value-taking flag.
pub enum FlagValue {
    /// A flag that is either on or off.
    Switch(bool),
    /// A flag that comes with an arbitrary user value.
    Value(String),
}

/// The model of a `FlagValue`.
#[verifier::ext_equal]
pub ghost enum FlagValueView {
    Switch(bool),
    Value(Seq<char>),
}

impl View for FlagValue {
    type V = FlagValueView;

    open spec fn view(&self) -> FlagValueView {
        match self {
            FlagValue::Switch(b) => FlagValueView::Switch(*b),
            FlagValue::Value(s) => FlagValueView::Value(s@),
        }
    }
}

impl FlagValue {
    /// The on/off state of a switch value.  Callers know from the flag's
    /// definition which shape to expect, so a mismatch is a programming
    /// error and is excluded by precondition.
    pub fn unwrap_switch(self) -> (b: bool)
        requires
            self@ is Switch,
        ensures
            self@ == FlagValueView::Switch(b),
    {
        match self {
            FlagValue::Switch(b) => b,
            FlagValue::Value(_) => vstd::pervasive::unreached(),
        }
    }

    /// The user-provided token of a value-shaped flag value.
    pub fn unwrap_value(self) -> (v: String)
        requires
            self@ is Value,
        ensures
            self@ == FlagValueView::Value(v@),
    {
        match self {
            FlagValue::Value(v) => v,
            FlagValue::Switch(_) => vstd::pervasive::unreached(),
        }
    }
}

/// The closed set of flags the tool recognizes, one variant per flag.
#[derive(Debug, Clone, Copy, PartialEq, Eq, Structural)]
pub enum FlagId {
    /// `-n` / `--name VALUE`: set the target Pokemon name.
    Name,
    /// `-l` / `--list`: switch to List mode.
    List,
    /// `--show-forms`: include form names in the list output.
    ShowForms,
    /// `-s` / `--shiny`: request the shiny sprite variant.
    Shiny,
    /// `-f` / `--form VALUE`: request a named form.
    Form,
    /// `-r` / `--random`: switch to RandomSingle mode.
    Random,
    /// `--random-by-name VALUE`: comma-separated candidates, RandomByNames mode.
    RandomByNames,
}

/// The registry order; it determines help-output ordering.
pub open spec fn spec_flags() -> Seq<FlagId> {
    seq![
        FlagId::Name,
        FlagId::List,
        FlagId::ShowForms,
        FlagId::Shiny,
        FlagId::Form,
        FlagId::Random,
        FlagId::RandomByNames,
    ]
}

/// The flag registry as an ordered list.
pub fn flags() -> (v: Vec<FlagId>)
    ensures
        v@ == spec_flags(),
{
    let mut v: Vec<FlagId> = Vec::new();
    v.push(FlagId::Name);
    v.push(FlagId::List);
    v.push(FlagId::ShowForms);
    v.push(FlagId::Shiny);
    v.push(FlagId::Form);
    v.push(FlagId::Random);
    v.push(FlagId::RandomByNames);
    proof {
        assert(v@ =~= spec_flags());
    }
    v
}

impl FlagId {
    /// Whether the flag is a switch (consumes no value token).
    pub open spec fn spec_is_switch(self) -> bool {
        match self {
            FlagId::Name => false,
            FlagId::Form => false,
            FlagId::RandomByNames => false,
            _ => true,
        }
    }

    /// Returns true if this flag is a switch.  When a flag is a switch, the
    /// parser will not look for a value after the flag is seen.
    pub fn is_switch(&self) -> (r: bool)
        ensures
            r == self.spec_is_switch(),
    {
        match self {
            FlagId::Name => false,
            FlagId::Form => false,
            FlagId::RandomByNames => false,
            _ => true,
        }
    }

    /// The single-character short name, if the flag has one.
    pub open spec fn spec_name_short(self) -> Option<char> {
        match self {
            FlagId::Name => Some('n'),
            FlagId::List => Some('l'),
            FlagId::ShowForms => None,
            FlagId::Shiny => Some('s'),
            FlagId::Form => Some('f'),
            FlagId::Random => Some('r'),
            FlagId::RandomByNames => None,
        }
    }

    /// A short single-character name for this flag, if any.
    pub fn name_short(&self) -> (r: Option<char>)
        ensures
            r == self.spec_name_short(),
    {
        match self {
            FlagId::Name => Some('n'),
            FlagId::List => Some('l'),
            FlagId::ShowForms => None,
            FlagId::Shiny => Some('s'),
            FlagId::Form => Some('f'),
            FlagId::Random => Some('r'),
            FlagId::RandomByNames => None,
        }
    }

    /// The long name of the flag.
    pub open spec fn spec_name_long(self) -> Seq<char> {
        match self {
            FlagId::Name => "name"@,
            FlagId::List => "list"@,
            FlagId::ShowForms => "show-forms"@,
            FlagId::Shiny => "shiny"@,
            FlagId::Form => "form"@,
            FlagId::Random => "random"@,
            FlagId::RandomByNames => "random-by-name"@,
        }
    }

    /// The long name of this flag; every flag has one.
    pub fn name_long(&self) -> (r: &'static str)
        ensures
            r@ == self.spec_name_long(),
    {
        match self {
            FlagId::Name => "name",
            FlagId::List => "list",
            FlagId::ShowForms => "show-forms",
            FlagId::Shiny => "shiny",
            FlagId::Form => "form",
            FlagId::Random => "random",
            FlagId::RandomByNames => "random-by-name",
        }
    }

    /// The negated long name, if any.  No flag in the current registry has
    /// one; the mechanism exists for switches that need a forced-off form.
    pub open spec fn spec_name_negated(self) -> Option<Seq<char>> {
        None
    }

    /// An alternate long name that forces a switch off, if any.
    pub fn name_negated(&self) -> (r: Option<&'static str>)
        ensures
            r is None,
            self.spec_name_negated() is None,
    {
        None
    }

    /// The placeholder name of the flag's value in documentation, if the
    /// flag takes a value.
    pub open spec fn spec_doc_variable(self) -> Option<Seq<char>> {
        match self {
            FlagId::Name => Some("NAME"@),
            FlagId::Form => Some("FORM"@),
            FlagId::RandomByNames => Some("[Pokemon Names]"@),
            _ => None,
        }
    }

    /// The variable name describing the value this flag accepts; set for
    /// value-taking flags only.
    pub fn doc_variable(&self) -> (r: Option<&'static str>)
        ensures
            match r {
                Some(s) => self.spec_doc_variable() == Some(s@),
                None => self.spec_doc_variable() is None,
            },
    {
        match self {
            FlagId::Name => Some("NAME"),
            FlagId::Form => Some("FORM"),
            FlagId::RandomByNames => Some("[Pokemon Names]"),
            _ => None,
        }
    }

    /// The one-line description shown in the help output.
    pub open spec fn spec_doc_short(self) -> Seq<char> {
        match self {
            FlagId::Name => "Print the Pokemon by its Name. Generally spelled like in the game."@,
            FlagId::List => "Print a list of all pokemons"@,
            FlagId::ShowForms => "Show List of Pokemons with their respective forms."@,
            FlagId::Shiny => "Print the shiny version of the pokemon."@,
            FlagId::Form => "Print the given form version of the pokemon."@,
            FlagId::Random => "Print a Random Pokemon in the terminal. Includes shiny version and their forms."@,
            FlagId::RandomByNames => "Print Random Pokemon from given Pokemon names. Pokemon names must be seperated by comma(',')."@,
        }
    }

    /// A very short documentation string describing what this flag does.
    pub fn doc_short(&self) -> (r: &'static str)
        ensures
            r@ == self.spec_doc_short(),
    {
        match self {
            FlagId::Name => "Print the Pokemon by its Name. Generally spelled like in the game.",
            FlagId::List => "Print a list of all pokemons",
            FlagId::ShowForms => "Show List of Pokemons with their respective forms.",
            FlagId::Shiny => "Print the shiny version of the pokemon.",
            FlagId::Form => "Print the given form version of the pokemon.",
            FlagId::Random => "Print a Random Pokemon in the terminal. Includes shiny version and their forms.",
            FlagId::RandomByNames => "Print Random Pokemon from given Pokemon names. Pokemon names must be seperated by comma(',').",
        }
    }

    /// The long documentation string; none of the flags has one yet.
    pub open spec fn spec_doc_long(self) -> Seq<char> {
        ""@
    }

    /// A longer documentation string describing the flag in full detail.
    pub fn doc_long(&self) -> (r: &'static str)
        ensures
            r@ == self.spec_doc_long(),
    {
        ""
    }
}

/// The kind of name under which a flag was matched.
#[derive(Debug, Clone, Copy, PartialEq, Eq, Structural)]
pub enum FlagInfoKind {
    /// A standard name, e.g. `--name` or `-n`.
    Standard,
    /// A negated name of a switch, forcing it off.
    Negated,
}

/// One entry of the parser's flag table: a flag together with the concrete
/// name (long string or short character) this entry stands for.
pub struct FlagInfo {
    /// The flag this entry belongs to.
    pub flag: FlagId,
    /// The name stored in the `FlagMap`: a long name or a short character.
    pub name: Result<String, char>,
    /// Whether this name is a standard or a negated form.
    pub kind: FlagInfoKind,
}

/// The model of a `FlagInfo`.
#[verifier::ext_equal]
pub ghost struct FlagInfoView {
    pub flag: FlagId,
    pub name: Result<Seq<char>, char>,
    pub kind: FlagInfoKind,
}

impl View for FlagInfo {
    type V = FlagInfoView;

    open spec fn view(&self) -> FlagInfoView {
        FlagInfoView {
            flag: self.flag,
            name: match &self.name {
                Ok(s) => Ok(s@),
                Err(c) => Err(*c),
            },
            kind: self.kind,
        }
    }
}

/// The lookup key of a flag-table entry: its long name as is, or the short
/// character as a one-character sequence.
pub open spec fn spec_info_key(info: FlagInfoView) -> Seq<char> {
    match info.name {
        Ok(s) => s,
        Err(c) => seq![c],
    }
}

/// The result of looking up a flag name.
pub enum FlagLookup<'a> {
    /// The name resolved to this flag-table entry.
    Match(&'a FlagInfo),
    /// The given short name is unrecognized.
    UnrecognizedShort(char),
    /// The given long name is unrecognized.
    UnrecognizedLong(String),
}

/// The position of the first key equal to `key`, if any.
pub open spec fn spec_find_key(keys: Seq<Seq<char>>, key: Seq<char>) -> Option<int>
    decreases keys.len(),
{
    if keys.len() == 0 {
        None
    } else if keys[0] == key {
        Some(0)
    } else {
        match spec_find_key(keys.drop_first(), key) {
            None => None,
            Some(k) => Some(k + 1),
        }
    }
}

/// `spec_find_key` finds the first matching key; `None` means no key
/// matches.
pub proof fn lemma_find_key(keys: Seq<Seq<char>>, key: Seq<char>)
    ensures
        match spec_find_key(keys, key) {
            Some(k) => 0 <= k < keys.len() && keys[k] == key && forall|j: int|
                0 <= j < k ==> keys[j] != key,
            None => forall|j: int| 0 <= j < keys.len() ==> keys[j] != key,
        },
    decreases keys.len(),
{
    if keys.len() != 0 && keys[0] != key {
        lemma_find_key(keys.drop_first(), key);
        match spec_find_key(keys.drop_first(), key) {
            None => {
                assert forall|j: int| 0 <= j < keys.len() implies keys[j] != key by {
                    if j > 0 {
                        assert(keys.drop_first()[j - 1] == keys[j]);
                    }
                }
            },
            Some(k) => {
                assert(keys.drop_first()[k] == keys[k + 1]);
                assert forall|j: int| 0 <= j < k + 1 implies keys[j] != key by {
                    if j > 0 {
                        assert(keys.drop_first()[j - 1] == keys[j]);
                    }
                }
            },
        }
    }
}

/// A map from every flag name (long, short, negated) to the index of its
/// entry in the parser's flag table.  Built once from the registry and then
/// only read.
pub struct FlagMap {
    /// The stored name keys; entry `i` resolves to flag-table index `i`.
    pub keys: Vec<String>,
}

impl View for FlagMap {
    type V = Seq<Seq<char>>;

    open spec fn view(&self) -> Seq<Seq<char>> {
        self.keys.deep_view()
    }
}

/// The lookup keys of a flag table, entry by entry.
pub open spec fn spec_keys_of_infos(infos: Seq<FlagInfo>) -> Seq<Seq<char>> {
    Seq::new(infos.len(), |i: int| spec_info_key(infos[i]@))
}

impl FlagMap {
    /// Build the map from the flag table.  The index of each entry is its
    /// ID.  Two entries colliding on one name would be a defect in the
    /// static registry, never user input, so collisions are excluded by
    /// precondition rather than handled.
    pub fn new(infos: &[FlagInfo]) -> (m: FlagMap)
        requires
            forall|i: int, j: int|
                0 <= i < j < infos@.len() ==> spec_info_key(infos@[i]@) != spec_info_key(
                    infos@[j]@,
                ),
        ensures
            m@ == spec_keys_of_infos(infos@),
    {
        let mut keys: Vec<String> = Vec::new();
        let mut idx: usize = 0;
        while idx < infos.len()
            invariant
                idx <= infos@.len(),
                keys@.len() == idx,
                forall|j: int| 0 <= j < idx ==> keys.deep_view()[j] == spec_info_key(infos@[j]@),
            decreases infos@.len() - idx,
        {
            let info = &infos[idx];
            let ghost pre = keys;
            match &info.name {
                Ok(s) => {
                    keys.push(s.clone());
                    proof {
                        assert(info@.name == Ok::<Seq<char>, char>(s@));
                        assert(keys@[idx as int]@ == spec_info_key(infos@[idx as int]@));
                    }
                },
                Err(c) => {
                    let mut one = String::new();
                    crate::util::push_char(&mut one, *c);
                    proof {
                        assert(one@ =~= seq![*c]);
                    }
                    keys.push(one);
                    proof {
                        assert(info@.name == Err::<Seq<char>, char>(*c));
                        assert(keys@[idx as int]@ == spec_info_key(infos@[idx as int]@));
                    }
                },
            }
            proof {
                assert forall|j: int| 0 <= j < idx + 1 implies keys.deep_view()[j]
                    == spec_info_key(infos@[j]@) by {
                    if j < idx {
                        assert(pre.deep_view()[j] == spec_info_key(infos@[j]@));
                        assert(pre.deep_view()[j] == pre@[j]@);
                        assert(keys@[j] == pre@[j]);
                    }
                    assert(keys.deep_view()[j] == keys@[j]@);
                }
            }
            idx += 1;
        }
        proof {
            assert(keys.deep_view() =~~= spec_keys_of_infos(infos@));
        }
        FlagMap { keys }
    }

    /// Look for an exact match of `key` in the map; no prefix or fuzzy
    /// matching.
    pub fn find(&self, key: &str) -> (r: Option<usize>)
        ensures
            match r {
                Some(i) => spec_find_key(self@, key@) == Some(i as int),
                None => spec_find_key(self@, key@) == None::<int>,
            },
    {
        let mut i: usize = 0;
        while i < self.keys.len()
            invariant
                i <= self.keys@.len(),
                self@.len() == self.keys@.len(),
                forall|j: int| 0 <= j < i ==> self@[j] != key@,
            decreases self.keys@.len() - i,
        {
            if str_eq(self.keys[i].as_str(), key) {
                proof {
                    assert(self@[i as int] == key@);
                    lemma_find_key(self@, key@);
                }
                return Some(i);
            }
            proof {
                assert(self@[i as int] != key@);
            }
            i += 1;
        }
        proof {
            lemma_find_key(self@, key@);
        }
        None
    }
}

/// Split a sequence at every comma; adjacent commas yield empty pieces, as
/// does a leading or trailing comma.
pub open spec fn spec_split_commas(s: Seq<char>) -> Seq<Seq<char>>
    decreases s.len(),
    via spec_split_commas_decreases
{
    match spec_find_char(s, ',') {
        None => seq![s],
        Some(k) => seq![s.take(k)] + spec_split_commas(s.skip(k + 1)),
    }
}

#[via_fn]
proof fn spec_split_commas_decreases(s: Seq<char>) {
    lemma_find_char(s, ',');
}

/// Split `s` at every comma.
pub fn split_commas(s: &str) -> (v: Vec<String>)
    ensures
        v.deep_view() == spec_split_commas(s@),
    decreases s@.len(),
{
    proof {
        lemma_find_char(s@, ',');
    }
    match find_char_str(s, ',') {
        None => {
            let mut v: Vec<String> = Vec::new();
            v.push(String::from_str(s));
            proof {
                assert(v.deep_view() =~= spec_split_commas(s@));
            }
            v
        },
        Some(k) => {
            let n = s.unicode_len();
            let head = s.substring_char(0, k);
            let tail = s.substring_char(k + 1, n);
            let mut v: Vec<String> = Vec::new();
            v.push(String::from_str(head));
            let mut rest = split_commas(tail);
            v.append(&mut rest);
            proof {
                assert(head@ =~= s@.take(k as int));
                assert(tail@ =~= s@.skip(k + 1));
                assert(v.deep_view() =~= seq![s@.take(k as int)] + spec_split_commas(
                    s@.skip(k + 1),
                ));
            }
            v
        },
    }
}

/// The effect of a switch-shaped flag value on the in-progress `Args`.
/// Only switch flags are given switch values; the result for a value-taking
/// flag is left arbitrary.
pub open spec fn spec_update_switch(id: FlagId, b: bool, st: ArgsView) -> Result<
    ArgsView,
    ParseErrorView,
> {
    match id {
        FlagId::Shiny => Ok(ArgsView { shiny: b, ..st }),
        FlagId::ShowForms => Ok(ArgsView { list_with_forms: b, ..st }),
        FlagId::List => spec_mode_set(id, Mode::List, st),
        FlagId::Random => spec_mode_set(id, Mode::Random, st),
        _ => vstd::pervasive::arbitrary(),
    }
}

/// Request a mode transition on behalf of flag `id`: allowed only away from
/// `Regular`; otherwise a usage error naming the flag.
pub open spec fn spec_mode_set(id: FlagId, m: Mode, st: ArgsView) -> Result<
    ArgsView,
    ParseErrorView,
> {
    if spec_mode_update(st.mode, m).1 {
        Ok(ArgsView { mode: spec_mode_update(st.mode, m).0, ..st })
    } else {
        Err(ParseErrorView::ModeConflict { flag: id })
    }
}

/// The effect of a value-shaped flag value on the in-progress `Args`.
/// Only value-taking flags are given value tokens; the result for a switch
/// is left arbitrary.
pub open spec fn spec_update_value(id: FlagId, v: Seq<char>, st: ArgsView) -> Result<
    ArgsView,
    ParseErrorView,
> {
    match id {
        FlagId::Name => if st.pokemon_name.len() > 0 {
            Err(ParseErrorView::Overwrite { flag: id, prev: st.pokemon_name, new: v })
        } else {
            Ok(ArgsView { pokemon_name: v, ..st })
        },
        FlagId::Form => match st.form {
            Some(prev) => Err(ParseErrorView::Overwrite { flag: id, prev, new: v }),
            None => Ok(ArgsView { form: Some(v), ..st }),
        },
        FlagId::RandomByNames => if v.len() == 0 {
            Err(ParseErrorView::EmptyValue { flag: id })
        } else {
            spec_mode_set(
                id,
                Mode::RandomByNames,
                ArgsView { pokemon_names_for_random: spec_split_commas(v), ..st },
            )
        },
        _ => vstd::pervasive::arbitrary(),
    }
}

impl FlagId {
    /// Apply this flag's effect to `args`, given the value the parser
    /// constructed for it.  The parser always hands a switch value to a
    /// switch flag and a user token to a value-taking flag.
    pub fn update(&self, val: FlagValue, args: &mut Args) -> (r: Result<(), ParseError>)
        requires
            (val@ is Switch) == self.spec_is_switch(),
        ensures
            match val@ {
                FlagValueView::Switch(b) => match r {
                    Ok(_) => spec_update_switch(*self, b, old(args)@) == Ok::<
                        ArgsView,
                        ParseErrorView,
                    >(final(args)@),
                    Err(e) => spec_update_switch(*self, b, old(args)@) == Err::<
                        ArgsView,
                        ParseErrorView,
                    >(e@),
                },
                FlagValueView::Value(v) => match r {
                    Ok(_) => spec_update_value(*self, v, old(args)@) == Ok::<
                        ArgsView,
                        ParseErrorView,
                    >(final(args)@),
                    Err(e) => spec_update_value(*self, v, old(args)@) == Err::<
                        ArgsView,
                        ParseErrorView,
                    >(e@),
                },
            },
    {
        match self {
            FlagId::Name => update_name(val.unwrap_value(), args),
            FlagId::List => update_list(val.unwrap_switch(), args),
            FlagId::ShowForms => update_show_forms(val.unwrap_switch(), args),
            FlagId::Shiny => update_shiny(val.unwrap_switch(), args),
            FlagId::Form => update_form(val.unwrap_value(), args),
            FlagId::Random => update_random(val.unwrap_switch(), args),
            FlagId::RandomByNames => update_random_by_names(val.unwrap_value(), args),
        }
    }
}

/// `-n` / `--name`: set the target name; the field is write-once.
fn update_name(name: String, args: &mut Args) -> (r: Result<(), ParseError>)
    ensures
        match r {
            Ok(_) => spec_update_value(FlagId::Name, name@, old(args)@) == Ok::<
                ArgsView,
                ParseErrorView,
            >(final(args)@),
            Err(e) => spec_update_value(FlagId::Name, name@, old(args)@) == Err::<
                ArgsView,
                ParseErrorView,
            >(e@),
        },
{
    if !args.pokemon_name.as_str().is_empty() {
        let prev = args.pokemon_name.clone();
        return Err(ParseError::Overwrite { flag: FlagId::Name, prev, new: name });
    }
    args.pokemon_name = name;
    proof {
        assert(args@ =~~= ArgsView { pokemon_name: name@, ..old(args)@ });
    }
    Ok(())
}

/// `-s` / `--shiny`: set the shiny request directly; idempotent.
fn update_shiny(b: bool, args: &mut Args) -> (r: Result<(), ParseError>)
    ensures
        r is Ok,
        spec_update_switch(FlagId::Shiny, b, old(args)@) == Ok::<ArgsView, ParseErrorView>(
            final(args)@,
        ),
{
    args.shiny = b;
    proof {
        assert(args@ =~~= ArgsView { shiny: b, ..old(args)@ });
    }
    Ok(())
}

/// `-f` / `--form`: set the requested form; the field is write-once.
fn update_form(form: String, args: &mut Args) -> (r: Result<(), ParseError>)
    ensures
        match r {
            Ok(_) => spec_update_value(FlagId::Form, form@, old(args)@) == Ok::<
                ArgsView,
                ParseErrorView,
            >(final(args)@),
            Err(e) => spec_update_value(FlagId::Form, form@, old(args)@) == Err::<
                ArgsView,
                ParseErrorView,
            >(e@),
        },
{
    match &args.form {
        Some(prev) => Err(
            ParseError::Overwrite { flag: FlagId::Form, prev: prev.clone(), new: form },
        ),
        None => {
            args.form = Some(form);
            proof {
                assert(args@ =~~= ArgsView { form: Some(form@), ..old(args)@ });
            }
            Ok(())
        },
    }
}

/// `-l` / `--list`: request List mode through the mode override rule.
fn update_list(b: bool, args: &mut Args) -> (r: Result<(), ParseError>)
    ensures
        match r {
            Ok(_) => spec_update_switch(FlagId::List, b, old(args)@) == Ok::<
                ArgsView,
                ParseErrorView,
            >(final(args)@),
            Err(e) => spec_update_switch(FlagId::List, b, old(args)@) == Err::<
                ArgsView,
                ParseErrorView,
            >(e@),
        },
{
    if args.mode.update(Mode::List) {
        proof {
            assert(args@ =~~= ArgsView { mode: Mode::List, ..old(args)@ });
        }
        Ok(())
    } else {
        Err(ParseError::ModeConflict { flag: FlagId::List })
    }
}

/// `--show-forms`: include forms in the list output; idempotent.
fn update_show_forms(b: bool, args: &mut Args) -> (r: Result<(), ParseError>)
    ensures
        r is Ok,
        spec_update_switch(FlagId::ShowForms, b, old(args)@) == Ok::<ArgsView, ParseErrorView>(
            final(args)@,
        ),
{
    args.list_with_forms = b;
    proof {
        assert(args@ =~~= ArgsView { list_with_forms: b, ..old(args)@ });
    }
    Ok(())
}

/// `-r` / `--random`: request RandomSingle mode through the override rule.
fn update_random(b: bool, args: &mut Args) -> (r: Result<(), ParseError>)
    ensures
        match r {
            Ok(_) => spec_update_switch(FlagId::Random, b, old(args)@) == Ok::<
                ArgsView,
                ParseErrorView,
            >(final(args)@),
            Err(e) => spec_update_switch(FlagId::Random, b, old(args)@) == Err::<
                ArgsView,
                ParseErrorView,
            >(e@),
        },
{
    if args.mode.update(Mode::Random) {
        proof {
            assert(args@ =~~= ArgsView { mode: Mode::Random, ..old(args)@ });
        }
        Ok(())
    } else {
        Err(ParseError::ModeConflict { flag: FlagId::Random })
    }
}

/// `--random-by-name`: split the comma-separated candidate list (which must
/// not be empty) and request RandomByNames mode.  The emptiness check comes
/// first, so an empty value fails before any mode transition.
fn update_random_by_names(names: String, args: &mut Args) -> (r: Result<(), ParseError>)
    ensures
        match r {
            Ok(_) => spec_update_value(FlagId::RandomByNames, names@, old(args)@) == Ok::<
                ArgsView,
                ParseErrorView,
            >(final(args)@),
            Err(e) => spec_update_value(FlagId::RandomByNames, names@, old(args)@) == Err::<
                ArgsView,
                ParseErrorView,
            >(e@),
        },
{
    if names.as_str().is_empty() {
        return Err(ParseError::EmptyValue { flag: FlagId::RandomByNames });
    }
    args.pokemon_names_for_random = split_commas(names.as_str());
    let ghost mid = args@;
    proof {
        assert(mid =~~= ArgsView {
            pokemon_names_for_random: spec_split_commas(names@),
            ..old(args)@
        });
    }
    if args.mode.update(Mode::RandomByNames) {
        proof {
            assert(args@ =~~= ArgsView { mode: Mode::RandomByNames, ..mid });
        }
        Ok(())
    } else {
        Err(ParseError::ModeConflict { flag: FlagId::RandomByNames })
    }
}


/// Parse a command line (the tokens after the program name) into the final
/// outcome: the accumulated `Args`, a usage error, or a special
/// short-circuit.  A special mode pre-empts everything else, so the caller
/// can print help or version output without touching any data files.
pub fn parse(rawargs: &Vec<String>) -> (r: crate::parse::ParseResult)
    ensures
        r@ == crate::parse::spec_outcome(rawargs.deep_view()),
{
    let parser = crate::parse::Parser::new();
    let mut args = Args::default();
    if let Err(err) = parser.parse(rawargs, &mut args) {
        return crate::parse::ParseResult::Failed(err);
    }
    // Bail early if a special mode was enabled: help and version output
    // must not be impacted by anything done next.
    if let Some(special_mode) = args.special {
        return crate::parse::ParseResult::Special(special_mode);
    }
    crate::parse::ParseResult::Parsed(args)
}

} // verus!
