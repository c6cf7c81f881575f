//! The argument parser: turns the raw command-line token list into an
//! `Args` value, an error, or a special short-circuit outcome, exactly as
//! the mathematical model `spec_outcome` describes.

use vstd::prelude::*;
use vstd::string::StrSliceExecFns;
use vstd::string::StringExecFns;

use crate::args::Args;
use crate::args::ArgsView;
use crate::args::SpecialMode;
use crate::args::spec_default_args;
use crate::flags::FlagId;
use crate::flags::FlagInfo;
use crate::flags::FlagInfoKind;
use crate::flags::FlagInfoView;
use crate::flags::FlagLookup;
use crate::flags::FlagMap;
use crate::flags::FlagValue;
use crate::flags::flags;
use crate::flags::spec_find_key;
use crate::flags::spec_flags;
use crate::flags::spec_info_key;
use crate::flags::spec_update_switch;
use crate::flags::spec_update_value;
use crate::util::find_char_str;
use crate::util::lemma_find_char;
use crate::util::push_char;
use crate::util::spec_find_char;
use crate::util::str_eq;

verus! {

/// A usage error detected while parsing the command line.  Every variant
/// names the offending flag or token, so the message can echo exactly what
/// the user wrote.
#[derive(Debug)]
pub enum ParseError {
    /// A short flag that matches no registry entry.
    UnrecognizedShort { ch: char },
    /// A long flag that matches no registry entry.
    UnrecognizedLong { name: String },
    /// A value-taking flag at the end of the command line.
    MissingValue { flag: FlagId },
    /// An `=`-attached value on a flag that takes none.
    UnexpectedValue { option: String, value: String },
    /// A mode-selecting flag given while another mode was already selected.
    ModeConflict { flag: FlagId },
    /// A second value for a write-once field.
    Overwrite { flag: FlagId, prev: String, new: String },
    /// An empty value where a non-empty one is required.
    EmptyValue { flag: FlagId },
}

/// The model of a `ParseError`.
#[verifier::ext_equal]
pub ghost enum ParseErrorView {
    UnrecognizedShort { ch: char },
    UnrecognizedLong { name: Seq<char> },
    MissingValue { flag: FlagId },
    UnexpectedValue { option: Seq<char>, value: Seq<char> },
    ModeConflict { flag: FlagId },
    Overwrite { flag: FlagId, prev: Seq<char>, new: Seq<char> },
    EmptyValue { flag: FlagId },
}

impl View for ParseError {
    type V = ParseErrorView;

    open spec fn view(&self) -> ParseErrorView {
        match self {
            ParseError::UnrecognizedShort { ch } => ParseErrorView::UnrecognizedShort { ch: *ch },
            ParseError::UnrecognizedLong { name } => ParseErrorView::UnrecognizedLong {
                name: name@,
            },
            ParseError::MissingValue { flag } => ParseErrorView::MissingValue { flag: *flag },
            ParseError::UnexpectedValue { option, value } => ParseErrorView::UnexpectedValue {
                option: option@,
                value: value@,
            },
            ParseError::ModeConflict { flag } => ParseErrorView::ModeConflict { flag: *flag },
            ParseError::Overwrite { flag, prev, new } => ParseErrorView::Overwrite {
                flag: *flag,
                prev: prev@,
                new: new@,
            },
            ParseError::EmptyValue { flag } => ParseErrorView::EmptyValue { flag: *flag },
        }
    }
}

/// The display text of a usage error.
pub open spec fn spec_message(e: ParseErrorView) -> Seq<char> {
    match e {
        ParseErrorView::UnrecognizedShort { ch } => "unrecognized flag -"@ + seq![ch],
        ParseErrorView::UnrecognizedLong { name } => "unrecognized flag --"@ + name,
        ParseErrorView::MissingValue { flag } => "missing value for flag --"@
            + flag.spec_name_long(),
        ParseErrorView::UnexpectedValue { option, value } => "unexpected value for flag "@ + option
            + ": "@ + value,
        ParseErrorView::ModeConflict { flag } => "unexpected argument --"@ + flag.spec_name_long()
            + ", not valid in this context"@,
        ParseErrorView::Overwrite { flag, prev, new } => "tried to overwrite flag --"@
            + flag.spec_name_long() + " '"@ + prev + "' <- '"@ + new + "'"@,
        ParseErrorView::EmptyValue { flag } => "empty value for flag --"@ + flag.spec_name_long(),
    }
}

impl ParseError {
    /// Render the error as the text the entry point prints.
    pub fn message(&self) -> (r: String)
        ensures
            r@ == spec_message(self@),
    {
        match self {
            ParseError::UnrecognizedShort { ch } => {
                let mut out = String::from_str("unrecognized flag -");
                push_char(&mut out, *ch);
                proof {
                    assert(out@ =~= spec_message(self@));
                }
                out
            },
            ParseError::UnrecognizedLong { name } => {
                let mut out = String::from_str("unrecognized flag --");
                crate::util::write(&mut out, name.as_str());
                out
            },
            ParseError::MissingValue { flag } => {
                let mut out = String::from_str("missing value for flag --");
                crate::util::write(&mut out, flag.name_long());
                out
            },
            ParseError::UnexpectedValue { option, value } => {
                let mut out = String::from_str("unexpected value for flag ");
                crate::util::write(&mut out, option.as_str());
                crate::util::write(&mut out, ": ");
                crate::util::write(&mut out, value.as_str());
                out
            },
            ParseError::ModeConflict { flag } => {
                let mut out = String::from_str("unexpected argument --");
                crate::util::write(&mut out, flag.name_long());
                crate::util::write(&mut out, ", not valid in this context");
                out
            },
            ParseError::Overwrite { flag, prev, new } => {
                let mut out = String::from_str("tried to overwrite flag --");
                crate::util::write(&mut out, flag.name_long());
                crate::util::write(&mut out, " '");
                crate::util::write(&mut out, prev.as_str());
                crate::util::write(&mut out, "' <- '");
                crate::util::write(&mut out, new.as_str());
                crate::util::write(&mut out, "'");
                out
            },
            ParseError::EmptyValue { flag } => {
                let mut out = String::from_str("empty value for flag --");
                crate::util::write(&mut out, flag.name_long());
                out
            },
        }
    }
}

/// The flag-table entry (or entries) contributed by one flag: its long
/// name, its short name if it has one, and its negated name if it has one.
pub open spec fn spec_entries_of(id: FlagId) -> Seq<FlagInfoView> {
    seq![
        FlagInfoView { flag: id, name: Ok(id.spec_name_long()), kind: FlagInfoKind::Standard },
    ] + (match id.spec_name_short() {
        Some(c) => seq![
            FlagInfoView { flag: id, name: Err(c), kind: FlagInfoKind::Standard },
        ],
        None => Seq::empty(),
    }) + (match id.spec_name_negated() {
        Some(n) => seq![FlagInfoView { flag: id, name: Ok(n), kind: FlagInfoKind::Negated }],
        None => Seq::empty(),
    })
}

/// The flag table built from a list of flags, in order.
pub open spec fn spec_infos_of(ids: Seq<FlagId>) -> Seq<FlagInfoView>
    decreases ids.len(),
{
    if ids.len() == 0 {
        Seq::empty()
    } else {
        spec_entries_of(ids[0]) + spec_infos_of(ids.drop_first())
    }
}

/// The parser's flag table: the registry's entries in registry order.
pub open spec fn spec_infos() -> Seq<FlagInfoView> {
    spec_infos_of(spec_flags())
}

/// The lookup keys of the parser's flag table, in table order.
pub open spec fn spec_keys() -> Seq<Seq<char>> {
    Seq::new(spec_infos().len(), |i: int| spec_info_key(spec_infos()[i]))
}

/// Building the table flag by flag appends each flag's entries.
pub proof fn lemma_infos_of_push(ids: Seq<FlagId>, id: FlagId)
    ensures
        spec_infos_of(ids.push(id)) =~= spec_infos_of(ids) + spec_entries_of(id),
    decreases ids.len(),
{
    let p = ids.push(id);
    if ids.len() == 0 {
        assert(p[0] == id);
        assert(p.drop_first() =~= Seq::<FlagId>::empty());
        assert(spec_infos_of(p.drop_first()) =~= Seq::<FlagInfoView>::empty());
        assert(spec_infos_of(p) == spec_entries_of(id) + spec_infos_of(p.drop_first()));
        assert(spec_infos_of(ids) =~= Seq::<FlagInfoView>::empty());
    } else {
        assert(p[0] == ids[0]);
        assert(p.drop_first() =~= ids.drop_first().push(id));
        lemma_infos_of_push(ids.drop_first(), id);
        assert(spec_infos_of(p) == spec_entries_of(ids[0]) + spec_infos_of(p.drop_first()));
        assert(spec_infos_of(p.drop_first()) == spec_infos_of(ids.drop_first().push(id)));
        assert(spec_infos_of(p.drop_first()) =~= spec_infos_of(ids.drop_first())
            + spec_entries_of(id));
        assert(spec_infos_of(ids) == spec_entries_of(ids[0]) + spec_infos_of(ids.drop_first()));
    }
}

/// The flag table, written out entry by entry.
pub proof fn lemma_spec_infos_concrete()
    ensures
        spec_infos() =~~= seq![
            FlagInfoView {
                flag: FlagId::Name,
                name: Ok("name"@),
                kind: FlagInfoKind::Standard,
            },
            FlagInfoView { flag: FlagId::Name, name: Err('n'), kind: FlagInfoKind::Standard },
            FlagInfoView {
                flag: FlagId::List,
                name: Ok("list"@),
                kind: FlagInfoKind::Standard,
            },
            FlagInfoView { flag: FlagId::List, name: Err('l'), kind: FlagInfoKind::Standard },
            FlagInfoView {
                flag: FlagId::ShowForms,
                name: Ok("show-forms"@),
                kind: FlagInfoKind::Standard,
            },
            FlagInfoView {
                flag: FlagId::Shiny,
                name: Ok("shiny"@),
                kind: FlagInfoKind::Standard,
            },
            FlagInfoView { flag: FlagId::Shiny, name: Err('s'), kind: FlagInfoKind::Standard },
            FlagInfoView {
                flag: FlagId::Form,
                name: Ok("form"@),
                kind: FlagInfoKind::Standard,
            },
            FlagInfoView { flag: FlagId::Form, name: Err('f'), kind: FlagInfoKind::Standard },
            FlagInfoView {
                flag: FlagId::Random,
                name: Ok("random"@),
                kind: FlagInfoKind::Standard,
            },
            FlagInfoView { flag: FlagId::Random, name: Err('r'), kind: FlagInfoKind::Standard },
            FlagInfoView {
                flag: FlagId::RandomByNames,
                name: Ok("random-by-name"@),
                kind: FlagInfoKind::Standard,
            },
        ],
{
    let ids = spec_flags();
    let t1 = ids.drop_first();
    let t2 = t1.drop_first();
    let t3 = t2.drop_first();
    let t4 = t3.drop_first();
    let t5 = t4.drop_first();
    let t6 = t5.drop_first();
    let t7 = t6.drop_first();
    let e0 = FlagInfoView { flag: FlagId::Name, name: Ok("name"@), kind: FlagInfoKind::Standard };
    let e1 = FlagInfoView { flag: FlagId::Name, name: Err('n'), kind: FlagInfoKind::Standard };
    let e2 = FlagInfoView { flag: FlagId::List, name: Ok("list"@), kind: FlagInfoKind::Standard };
    let e3 = FlagInfoView { flag: FlagId::List, name: Err('l'), kind: FlagInfoKind::Standard };
    let e4 = FlagInfoView { flag: FlagId::ShowForms, name: Ok("show-forms"@), kind: FlagInfoKind::Standard };
    let e5 = FlagInfoView { flag: FlagId::Shiny, name: Ok("shiny"@), kind: FlagInfoKind::Standard };
    let e6 = FlagInfoView { flag: FlagId::Shiny, name: Err('s'), kind: FlagInfoKind::Standard };
    let e7 = FlagInfoView { flag: FlagId::Form, name: Ok("form"@), kind: FlagInfoKind::Standard };
    let e8 = FlagInfoView { flag: FlagId::Form, name: Err('f'), kind: FlagInfoKind::Standard };
    let e9 = FlagInfoView { flag: FlagId::Random, name: Ok("random"@), kind: FlagInfoKind::Standard };
    let e10 = FlagInfoView { flag: FlagId::Random, name: Err('r'), kind: FlagInfoKind::Standard };
    let e11 = FlagInfoView { flag: FlagId::RandomByNames, name: Ok("random-by-name"@), kind: FlagInfoKind::Standard };
    assert(t7 =~= Seq::<FlagId>::empty());
    assert(spec_infos_of(t7) =~= Seq::<FlagInfoView>::empty());
    assert(t6 =~= seq![FlagId::RandomByNames]);
    assert(t5 =~= seq![FlagId::Random, FlagId::RandomByNames]);
    assert(t4 =~= seq![FlagId::Form, FlagId::Random, FlagId::RandomByNames]);
    assert(t3 =~= seq![FlagId::Shiny, FlagId::Form, FlagId::Random, FlagId::RandomByNames]);
    assert(t2 =~= seq![
        FlagId::ShowForms,
        FlagId::Shiny,
        FlagId::Form,
        FlagId::Random,
        FlagId::RandomByNames,
    ]);
    assert(t1 =~= seq![
        FlagId::List,
        FlagId::ShowForms,
        FlagId::Shiny,
        FlagId::Form,
        FlagId::Random,
        FlagId::RandomByNames,
    ]);
    assert(spec_entries_of(FlagId::Name) =~~= seq![e0, e1]);
    assert(spec_entries_of(FlagId::List) =~~= seq![e2, e3]);
    assert(spec_entries_of(FlagId::ShowForms) =~~= seq![e4]);
    assert(spec_entries_of(FlagId::Shiny) =~~= seq![e5, e6]);
    assert(spec_entries_of(FlagId::Form) =~~= seq![e7, e8]);
    assert(spec_entries_of(FlagId::Random) =~~= seq![e9, e10]);
    assert(spec_entries_of(FlagId::RandomByNames) =~~= seq![e11]);
    assert(spec_infos_of(t6) =~~= seq![e11]);
    assert(spec_infos_of(t5) =~~= seq![e9, e10, e11]);
    assert(spec_infos_of(t4) =~~= seq![e7, e8, e9, e10, e11]);
    assert(spec_infos_of(t3) =~~= seq![e5, e6, e7, e8, e9, e10, e11]);
    assert(spec_infos_of(t2) =~~= seq![e4, e5, e6, e7, e8, e9, e10, e11]);
    assert(spec_infos_of(t1) =~~= seq![e2, e3, e4, e5, e6, e7, e8, e9, e10, e11]);
    assert(spec_infos_of(ids) =~~= seq![e0, e1, e2, e3, e4, e5, e6, e7, e8, e9, e10, e11]);
}

/// No two flag-table entries share a lookup key.
pub proof fn lemma_keys_unique()
    ensures
        forall|i: int, j: int|
            0 <= i < j < spec_infos().len() ==> spec_info_key(#[trigger] spec_infos()[i])
                != spec_info_key(#[trigger] spec_infos()[j]),
{
    lemma_spec_infos_concrete();
    reveal_strlit("name");
    reveal_strlit("list");
    reveal_strlit("show-forms");
    reveal_strlit("shiny");
    reveal_strlit("form");
    reveal_strlit("random");
    reveal_strlit("random-by-name");
    assert forall|i: int, j: int| 0 <= i < j < spec_infos().len() implies spec_info_key(
        #[trigger] spec_infos()[i],
    ) != spec_info_key(#[trigger] spec_infos()[j]) by {
        let a = spec_info_key(spec_infos()[i]);
        let b = spec_info_key(spec_infos()[j]);
        if a.len() == b.len() && a.len() >= 1 {
            assert(a[0] != b[0]);
        }
    }
}

/// The views of the parser's flag-table entries, in order.
pub open spec fn spec_views_of(info: Seq<FlagInfo>) -> Seq<FlagInfoView> {
    Seq::new(info.len(), |i: int| info[i]@)
}

/// A parser for turning the command-line token list into a strictly typed
/// `Args`.  Its state is immutable and completely determined by the flag
/// registry; the entry point builds it once and reuses it.
pub struct Parser {
    /// One map over every flag name (long, short, negated), mapping the
    /// name to an index into `info`.
    pub map: FlagMap,
    /// The flag table: the registry's entries in registry order.
    pub info: Vec<FlagInfo>,
}

impl Parser {
    /// The parser was built from the registry: its table is the registry's
    /// table and its map holds exactly the table's keys.
    pub open spec fn wf(self) -> bool {
        &&& spec_views_of(self.info@) == spec_infos()
        &&& self.map@ == spec_keys()
    }

    /// Build the parser from the flag registry: one table entry per name a
    /// flag answers to, and the map over all of them.
    pub fn new() -> (p: Parser)
        ensures
            p.wf(),
    {
        let flag_list = flags();
        let mut info: Vec<FlagInfo> = Vec::new();
        let mut k: usize = 0;
        while k < flag_list.len()
            invariant
                k <= flag_list@.len(),
                flag_list@ == spec_flags(),
                spec_views_of(info@) == spec_infos_of(flag_list@.take(k as int)),
            decreases flag_list@.len() - k,
        {
            let flag = flag_list[k];
            let ghost info0 = info@;
            // The flag's long name.
            info.push(
                FlagInfo {
                    flag,
                    name: Ok(String::from_str(flag.name_long())),
                    kind: FlagInfoKind::Standard,
                },
            );
            // The flag's short name, if it has one.
            if let Some(c) = flag.name_short() {
                info.push(FlagInfo { flag, name: Err(c), kind: FlagInfoKind::Standard });
            }
            // The flag's negated name, if it has one.
            if let Some(n) = flag.name_negated() {
                info.push(
                    FlagInfo {
                        flag,
                        name: Ok(String::from_str(n)),
                        kind: FlagInfoKind::Negated,
                    },
                );
            }
            proof {
                assert(spec_views_of(info@) =~~= spec_views_of(info0) + spec_entries_of(flag));
                lemma_infos_of_push(flag_list@.take(k as int), flag);
                assert(flag_list@.take(k + 1) =~= flag_list@.take(k as int).push(flag));
                assert(spec_views_of(info@) =~~= spec_infos_of(flag_list@.take(k + 1)));
            }
            k += 1;
        }
        proof {
            assert(flag_list@.take(flag_list@.len() as int) =~= flag_list@);
            assert(spec_views_of(info@) =~~= spec_infos());
            lemma_keys_unique();
            assert forall|i: int, j: int|
                0 <= i < j < info@.len() implies spec_info_key(info@[i]@) != spec_info_key(
                info@[j]@,
            ) by {
                assert(info@[i]@ == spec_infos()[i]);
                assert(info@[j]@ == spec_infos()[j]);
            }
        }
        let map = FlagMap::new(info.as_slice());
        proof {
            assert(map@ =~~= spec_keys());
        }
        Parser { map, info }
    }
}

/// Resolve a lookup key against the registry: the first flag-table entry
/// whose key matches, if any.
pub open spec fn spec_lookup(key: Seq<char>) -> Option<FlagInfoView> {
    match spec_find_key(spec_keys(), key) {
        None => None,
        Some(i) => Some(spec_infos()[i]),
    }
}

impl Parser {
    /// Look for a flag by its short name.
    pub fn find_short(&self, ch: char) -> (r: FlagLookup)
        requires
            self.wf(),
        ensures
            match r {
                FlagLookup::Match(info) => spec_lookup(seq![ch]) == Some(info@),
                FlagLookup::UnrecognizedShort(c) => c == ch && spec_lookup(seq![ch]) is None,
                FlagLookup::UnrecognizedLong(_) => false,
            },
    {
        let mut one = String::new();
        push_char(&mut one, ch);
        proof {
            assert(one@ =~= seq![ch]);
        }
        match self.map.find(one.as_str()) {
            None => FlagLookup::UnrecognizedShort(ch),
            Some(i) => {
                proof {
                    crate::flags::lemma_find_key(spec_keys(), seq![ch]);
                }
                FlagLookup::Match(&self.info[i])
            },
        }
    }

    /// Look for a flag by its long name.
    pub fn find_long(&self, name: &str) -> (r: FlagLookup)
        requires
            self.wf(),
        ensures
            match r {
                FlagLookup::Match(info) => spec_lookup(name@) == Some(info@),
                FlagLookup::UnrecognizedShort(_) => false,
                FlagLookup::UnrecognizedLong(s) => s@ == name@ && spec_lookup(name@) is None,
            },
    {
        match self.map.find(name) {
            None => FlagLookup::UnrecognizedLong(String::from_str(name)),
            Some(i) => {
                proof {
                    crate::flags::lemma_find_key(spec_keys(), name@);
                }
                FlagLookup::Match(&self.info[i])
            },
        }
    }
}


/// A bare token is appended to the positional arguments.
pub open spec fn spec_push_positional(st: ArgsView, t: Seq<char>) -> ArgsView {
    ArgsView { positional: st.positional.push(t), ..st }
}

/// Every flag-table entry is a standard (non-negated) name, since no flag
/// in the current registry declares a negated form.
pub proof fn lemma_entries_standard()
    ensures
        forall|i: int|
            0 <= i < spec_infos().len() ==> (#[trigger] spec_infos()[i]).kind
                == FlagInfoKind::Standard,
{
    lemma_spec_infos_concrete();
}

/// One step of the parse, from token `i` onward.  `finished` records that a
/// bare `--` was seen, after which every token is positional.  Mirrors a
/// conventional short/long option tokenizer: `-x` clusters, `--name`,
/// `--name=value`, `--`, and bare values.
pub open spec fn spec_parse_from(
    toks: Seq<Seq<char>>,
    i: int,
    finished: bool,
    st: ArgsView,
) -> Result<ArgsView, ParseErrorView>
    decreases toks.len() - i, 0int, 0int,
{
    if i >= toks.len() {
        Ok(st)
    } else {
        let t = toks[i];
        if finished {
            spec_parse_from(toks, i + 1, true, spec_push_positional(st, t))
        } else if t.len() == 2 && t[0] == '-' && t[1] == '-' {
            spec_parse_from(toks, i + 1, true, st)
        } else if t.len() >= 2 && t[0] == '-' && t[1] == '-' {
            spec_long(t, toks, i + 1, st)
        } else if t.len() > 1 && t[0] == '-' {
            spec_shorts(t, 1, toks, i + 1, st)
        } else {
            spec_parse_from(toks, i + 1, false, spec_push_positional(st, t))
        }
    }
}

/// After a long switch (or help/version) was applied: an `=`-attached value
/// is left over and is an error, since the flag consumes none.
pub open spec fn spec_after_long_switch(
    option: Seq<char>,
    attached: Option<Seq<char>>,
    toks: Seq<Seq<char>>,
    i: int,
    st: ArgsView,
) -> Result<ArgsView, ParseErrorView>
    decreases toks.len() - i, 1int, 0int,
{
    match attached {
        Some(v) => Err(ParseErrorView::UnexpectedValue { option, value: v }),
        None => spec_parse_from(toks, i, false, st),
    }
}

/// Handle one long-option token `t` (starting with `--`); `i` is the index
/// of the token after it.  `--help` and `--version` short-circuit into the
/// special outcome; other names resolve through the registry; a value flag
/// takes its `=`-attached value or else consumes the next token.
pub open spec fn spec_long(
    t: Seq<char>,
    toks: Seq<Seq<char>>,
    i: int,
    st: ArgsView,
) -> Result<ArgsView, ParseErrorView>
    decreases toks.len() - i, 2int, 0int,
{
    let body = t.skip(2);
    let name = match spec_find_char(body, '=') {
        Some(k) => body.take(k),
        None => body,
    };
    let attached = match spec_find_char(body, '=') {
        Some(k) => Some(body.skip(k + 1)),
        None => None::<Seq<char>>,
    };
    if name == "help"@ {
        spec_after_long_switch(
            seq!['-', '-'] + name,
            attached,
            toks,
            i,
            ArgsView { special: Some(SpecialMode::HelpLong), ..st },
        )
    } else if name == "version"@ {
        spec_after_long_switch(
            seq!['-', '-'] + name,
            attached,
            toks,
            i,
            ArgsView { special: Some(SpecialMode::VersionLong), ..st },
        )
    } else {
        match spec_lookup(name) {
            None => Err(ParseErrorView::UnrecognizedLong { name }),
            Some(info) => {
                if info.kind is Negated {
                    match spec_update_switch(info.flag, false, st) {
                        Err(e) => Err(e),
                        Ok(st2) => spec_after_long_switch(
                            seq!['-', '-'] + name,
                            attached,
                            toks,
                            i,
                            st2,
                        ),
                    }
                } else if info.flag.spec_is_switch() {
                    match spec_update_switch(info.flag, true, st) {
                        Err(e) => Err(e),
                        Ok(st2) => spec_after_long_switch(
                            seq!['-', '-'] + name,
                            attached,
                            toks,
                            i,
                            st2,
                        ),
                    }
                } else {
                    match attached {
                        Some(v) => match spec_update_value(info.flag, v, st) {
                            Err(e) => Err(e),
                            Ok(st2) => spec_parse_from(toks, i, false, st2),
                        },
                        None => if i < toks.len() {
                            match spec_update_value(info.flag, toks[i], st) {
                                Err(e) => Err(e),
                                Ok(st2) => spec_parse_from(toks, i + 1, false, st2),
                            }
                        } else {
                            Err(ParseErrorView::MissingValue { flag: info.flag })
                        },
                    }
                }
            },
        }
    }
}

/// Handle the rest of a short-option cluster `t` from character position
/// `j`; `i` is the index of the token after the cluster.  `-h` and `-v`
/// short-circuit; a value flag takes the rest of the cluster (an `=` right
/// after it is dropped) or else consumes the next token; a left-over `=`
/// after a switch is an error.
pub open spec fn spec_shorts(
    t: Seq<char>,
    j: int,
    toks: Seq<Seq<char>>,
    i: int,
    st: ArgsView,
) -> Result<ArgsView, ParseErrorView>
    decreases toks.len() - i, 2int, t.len() - j,
{
    if j < 1 || j >= t.len() {
        spec_parse_from(toks, i, false, st)
    } else {
        let c = t[j];
        if c == '=' && j > 1 {
            Err(
                ParseErrorView::UnexpectedValue {
                    option: seq!['-', t[j - 1]],
                    value: t.skip(j + 1),
                },
            )
        } else if c == 'h' {
            spec_shorts(t, j + 1, toks, i, ArgsView { special: Some(SpecialMode::HelpShort), ..st })
        } else if c == 'v' {
            spec_shorts(
                t,
                j + 1,
                toks,
                i,
                ArgsView { special: Some(SpecialMode::VersionShort), ..st },
            )
        } else {
            match spec_lookup(seq![c]) {
                None => Err(ParseErrorView::UnrecognizedShort { ch: c }),
                Some(info) => {
                    if info.kind is Negated {
                        match spec_update_switch(info.flag, false, st) {
                            Err(e) => Err(e),
                            Ok(st2) => spec_shorts(t, j + 1, toks, i, st2),
                        }
                    } else if info.flag.spec_is_switch() {
                        match spec_update_switch(info.flag, true, st) {
                            Err(e) => Err(e),
                            Ok(st2) => spec_shorts(t, j + 1, toks, i, st2),
                        }
                    } else {
                        if j + 1 < t.len() {
                            let v = if t[j + 1] == '=' {
                                t.skip(j + 2)
                            } else {
                                t.skip(j + 1)
                            };
                            match spec_update_value(info.flag, v, st) {
                                Err(e) => Err(e),
                                Ok(st2) => spec_parse_from(toks, i, false, st2),
                            }
                        } else if i < toks.len() {
                            match spec_update_value(info.flag, toks[i], st) {
                                Err(e) => Err(e),
                                Ok(st2) => spec_parse_from(toks, i + 1, false, st2),
                            }
                        } else {
                            Err(ParseErrorView::MissingValue { flag: info.flag })
                        }
                    }
                },
            }
        }
    }
}

/// The outcome of a whole parse run: a usage error, a special
/// short-circuit, or the accumulated arguments.
#[verifier::ext_equal]
pub ghost enum ParseOutcome {
    Parsed(ArgsView),
    Failed(ParseErrorView),
    Special(SpecialMode),
}

/// The outcome of parsing `toks` from a default `Args`: scan every token;
/// an error aborts; otherwise a recorded special mode pre-empts the
/// arguments.
pub open spec fn spec_outcome(toks: Seq<Seq<char>>) -> ParseOutcome {
    match spec_parse_from(toks, 0, false, spec_default_args()) {
        Err(e) => ParseOutcome::Failed(e),
        Ok(st) => match st.special {
            Some(sp) => ParseOutcome::Special(sp),
            None => ParseOutcome::Parsed(st),
        },
    }
}

/// The result of parsing CLI arguments: the parsed `Args`, a usage error,
/// or a "special" outcome for `-h`/`--help`/`-v`/`--version` that lets the
/// caller short-circuit before any data is loaded.
pub enum ParseResult {
    Parsed(Args),
    Failed(ParseError),
    Special(SpecialMode),
}

impl View for ParseResult {
    type V = ParseOutcome;

    open spec fn view(&self) -> ParseOutcome {
        match self {
            ParseResult::Parsed(args) => ParseOutcome::Parsed(args@),
            ParseResult::Failed(e) => ParseOutcome::Failed(e@),
            ParseResult::Special(sp) => ParseOutcome::Special(*sp),
        }
    }
}


/// A resolved lookup always yields a standard (non-negated) entry with the
/// current registry.
pub proof fn lemma_lookup_standard(key: Seq<char>)
    ensures
        match spec_lookup(key) {
            Some(info) => info.kind == FlagInfoKind::Standard,
            None => true,
        },
{
    lemma_entries_standard();
    crate::flags::lemma_find_key(spec_keys(), key);
    match spec_find_key(spec_keys(), key) {
        Some(k) => {
            assert(0 <= k < spec_keys().len());
            assert(spec_keys().len() == spec_infos().len());
            assert(spec_infos()[k].kind == FlagInfoKind::Standard);
        },
        None => {},
    }
}

impl Parser {
    /// Handle one long-option token (`--name` or `--name=value`); `next` is
    /// the index of the token after it.  On success, returns the index at
    /// which the outer scan continues.
    fn handle_long(
        &self,
        t: &String,
        rawargs: &Vec<String>,
        next: usize,
        args: &mut Args,
    ) -> (r: Result<usize, ParseError>)
        requires
            self.wf(),
            next <= rawargs@.len(),
            t@.len() >= 2,
            t@[0] == '-',
            t@[1] == '-',
        ensures
            match r {
                Ok(i2) => next <= i2 <= rawargs@.len() && spec_long(
                    t@,
                    rawargs.deep_view(),
                    next as int,
                    old(args)@,
                ) == spec_parse_from(rawargs.deep_view(), i2 as int, false, final(args)@),
                Err(e) => spec_long(t@, rawargs.deep_view(), next as int, old(args)@) == Err::<
                    ArgsView,
                    ParseErrorView,
                >(e@),
            },
    {
        let ghost toks = rawargs.deep_view();
        let ghost st0 = args@;
        let n = t.as_str().unicode_len();
        let body = t.as_str().substring_char(2, n);
        proof {
            assert(body@ =~= t@.skip(2));
            lemma_find_char(body@, '=');
        }
        let eq_pos = find_char_str(body, '=');
        let (name, attached): (&str, Option<String>) = match eq_pos {
            Some(k) => {
                let bn = body.unicode_len();
                let nm = body.substring_char(0, k);
                let at = String::from_str(body.substring_char(k + 1, bn));
                proof {
                    assert(nm@ =~= body@.take(k as int));
                    assert(at@ =~= body@.skip(k + 1));
                }
                (nm, Some(at))
            },
            None => (body, None),
        };
        proof {
            assert(spec_find_char(t@.skip(2), '=') == spec_find_char(body@, '='));
        }
        if str_eq(name, "help") {
            args.special = Some(SpecialMode::HelpLong);
            proof {
                assert(args@ =~~= ArgsView { special: Some(SpecialMode::HelpLong), ..st0 });
            }
            match attached {
                Some(v) => {
                    let mut opt = String::from_str("--");
                    crate::util::write(&mut opt, name);
                    proof {
                        reveal_strlit("--");
                        assert("--"@ =~= seq!['-', '-']);
                    }
                    Err(ParseError::UnexpectedValue { option: opt, value: v })
                },
                None => Ok(next),
            }
        } else if str_eq(name, "version") {
            args.special = Some(SpecialMode::VersionLong);
            proof {
                assert(args@ =~~= ArgsView { special: Some(SpecialMode::VersionLong), ..st0 });
            }
            match attached {
                Some(v) => {
                    let mut opt = String::from_str("--");
                    crate::util::write(&mut opt, name);
                    proof {
                        reveal_strlit("--");
                        assert("--"@ =~= seq!['-', '-']);
                    }
                    Err(ParseError::UnexpectedValue { option: opt, value: v })
                },
                None => Ok(next),
            }
        } else {
            match self.find_long(name) {
                FlagLookup::UnrecognizedLong(sname) => Err(
                    ParseError::UnrecognizedLong { name: sname },
                ),
                FlagLookup::UnrecognizedShort(_) => vstd::pervasive::unreached(),
                FlagLookup::Match(info) => {
                    let flag = info.flag;
                    let kind = info.kind;
                    proof {
                        lemma_lookup_standard(name@);
                    }
                    let negated = matches!(kind, FlagInfoKind::Negated);
                    if negated || flag.is_switch() {
                        let b = !negated;
                        match flag.update(FlagValue::Switch(b), args) {
                            Err(e) => Err(e),
                            Ok(_) => match attached {
                                Some(v) => {
                                    let mut opt = String::from_str("--");
                                    crate::util::write(&mut opt, name);
                                    proof {
                                        reveal_strlit("--");
                                        assert("--"@ =~= seq!['-', '-']);
                                    }
                                    Err(ParseError::UnexpectedValue { option: opt, value: v })
                                },
                                None => Ok(next),
                            },
                        }
                    } else {
                        match attached {
                            Some(v) => match flag.update(FlagValue::Value(v), args) {
                                Err(e) => Err(e),
                                Ok(_) => Ok(next),
                            },
                            None => {
                                if next < rawargs.len() {
                                    let v = rawargs[next].clone();
                                    proof {
                                        assert(v@ == toks[next as int]);
                                    }
                                    match flag.update(FlagValue::Value(v), args) {
                                        Err(e) => Err(e),
                                        Ok(_) => Ok(next + 1),
                                    }
                                } else {
                                    Err(ParseError::MissingValue { flag })
                                }
                            },
                        }
                    }
                },
            }
        }
    }
}


impl Parser {
    /// Handle one short-option cluster token (`-x`, `-abc`, `-nvalue`);
    /// `next` is the index of the token after it.  On success, returns the
    /// index at which the outer scan continues.
    fn handle_shorts(
        &self,
        t: &String,
        rawargs: &Vec<String>,
        next: usize,
        args: &mut Args,
    ) -> (r: Result<usize, ParseError>)
        requires
            self.wf(),
            next <= rawargs@.len(),
            t@.len() > 1,
        ensures
            match r {
                Ok(i2) => next <= i2 <= rawargs@.len() && spec_shorts(
                    t@,
                    1,
                    rawargs.deep_view(),
                    next as int,
                    old(args)@,
                ) == spec_parse_from(rawargs.deep_view(), i2 as int, false, final(args)@),
                Err(e) => spec_shorts(t@, 1, rawargs.deep_view(), next as int, old(args)@)
                    == Err::<ArgsView, ParseErrorView>(e@),
            },
    {
        let ghost toks = rawargs.deep_view();
        let ghost st0 = args@;
        let n = t.as_str().unicode_len();
        let mut j: usize = 1;
        while j < n
            invariant
                self.wf(),
                next <= rawargs@.len(),
                toks == rawargs.deep_view(),
                st0 == old(args)@,
                n == t@.len(),
                1 <= j <= n,
                spec_shorts(t@, 1, toks, next as int, st0) == spec_shorts(
                    t@,
                    j as int,
                    toks,
                    next as int,
                    args@,
                ),
            decreases n - j,
        {
            let ghost pre = args@;
            let c = t.as_str().get_char(j);
            if c == '=' && j > 1 {
                let prev = t.as_str().get_char(j - 1);
                let mut opt = String::from_str("-");
                push_char(&mut opt, prev);
                let value = String::from_str(t.as_str().substring_char(j + 1, n));
                proof {
                    reveal_strlit("-");
                    assert(opt@ =~= seq!['-', t@[j - 1]]);
                    assert(value@ =~= t@.skip(j + 1));
                }
                return Err(ParseError::UnexpectedValue { option: opt, value });
            }
            if c == 'h' {
                args.special = Some(SpecialMode::HelpShort);
                proof {
                    assert(args@ =~~= ArgsView { special: Some(SpecialMode::HelpShort), ..pre });
                }
                j += 1;
                continue;
            }
            if c == 'v' {
                args.special = Some(SpecialMode::VersionShort);
                proof {
                    assert(args@ =~~= ArgsView {
                        special: Some(SpecialMode::VersionShort),
                        ..pre
                    });
                }
                j += 1;
                continue;
            }
            match self.find_short(c) {
                FlagLookup::UnrecognizedShort(ch) => {
                    return Err(ParseError::UnrecognizedShort { ch });
                },
                FlagLookup::UnrecognizedLong(_) => {
                    return vstd::pervasive::unreached();
                },
                FlagLookup::Match(info) => {
                    let flag = info.flag;
                    let kind = info.kind;
                    proof {
                        lemma_lookup_standard(seq![c]);
                    }
                    let negated = matches!(kind, FlagInfoKind::Negated);
                    if negated || flag.is_switch() {
                        let b = !negated;
                        match flag.update(FlagValue::Switch(b), args) {
                            Err(e) => {
                                return Err(e);
                            },
                            Ok(_) => {
                                j += 1;
                                continue;
                            },
                        }
                    } else {
                        if j + 1 < n {
                            let start = if t.as_str().get_char(j + 1) == '=' {
                                j + 2
                            } else {
                                j + 1
                            };
                            let v = String::from_str(t.as_str().substring_char(start, n));
                            proof {
                                assert(v@ =~= t@.skip(start as int));
                            }
                            match flag.update(FlagValue::Value(v), args) {
                                Err(e) => {
                                    return Err(e);
                                },
                                Ok(_) => {
                                    return Ok(next);
                                },
                            }
                        } else if next < rawargs.len() {
                            let v = rawargs[next].clone();
                            proof {
                                assert(v@ == toks[next as int]);
                            }
                            match flag.update(FlagValue::Value(v), args) {
                                Err(e) => {
                                    return Err(e);
                                },
                                Ok(_) => {
                                    return Ok(next + 1);
                                },
                            }
                        } else {
                            return Err(ParseError::MissingValue { flag });
                        }
                    }
                },
            }
        }
        proof {
            assert(spec_shorts(t@, j as int, toks, next as int, args@) == spec_parse_from(
                toks,
                next as int,
                false,
                args@,
            ));
        }
        Ok(next)
    }
}


impl Parser {
    /// Parse the raw token list into `args`.  Exactly the outcome of the
    /// model `spec_parse_from` over the tokens: `Ok` leaves `args` holding
    /// the accumulated result, an error aborts the scan.
    pub fn parse(&self, rawargs: &Vec<String>, args: &mut Args) -> (r: Result<(), ParseError>)
        requires
            self.wf(),
        ensures
            match r {
                Ok(_) => spec_parse_from(rawargs.deep_view(), 0, false, old(args)@) == Ok::<
                    ArgsView,
                    ParseErrorView,
                >(final(args)@),
                Err(e) => spec_parse_from(rawargs.deep_view(), 0, false, old(args)@) == Err::<
                    ArgsView,
                    ParseErrorView,
                >(e@),
            },
    {
        let ghost toks = rawargs.deep_view();
        let ghost st0 = args@;
        let mut i: usize = 0;
        let mut finished = false;
        while i < rawargs.len()
            invariant
                self.wf(),
                toks == rawargs.deep_view(),
                st0 == old(args)@,
                i <= rawargs@.len(),
                spec_parse_from(toks, 0, false, st0) == spec_parse_from(
                    toks,
                    i as int,
                    finished,
                    args@,
                ),
            decreases rawargs@.len() - i,
        {
            let t = &rawargs[i];
            proof {
                assert(toks[i as int] == t@);
            }
            let ghost pre = args@;
            if finished {
                args.positional.push(t.clone());
                proof {
                    assert(args@ =~~= spec_push_positional(pre, t@));
                }
                i += 1;
                continue;
            }
            let n = t.as_str().unicode_len();
            let is_dash = n >= 1 && t.as_str().get_char(0) == '-';
            let is_ddash = is_dash && n >= 2 && t.as_str().get_char(1) == '-';
            if is_ddash && n == 2 {
                finished = true;
                i += 1;
                continue;
            }
            if is_ddash {
                match self.handle_long(t, rawargs, i + 1, args) {
                    Err(e) => {
                        return Err(e);
                    },
                    Ok(i2) => {
                        i = i2;
                        continue;
                    },
                }
            }
            if is_dash && n > 1 {
                match self.handle_shorts(t, rawargs, i + 1, args) {
                    Err(e) => {
                        return Err(e);
                    },
                    Ok(i2) => {
                        i = i2;
                        continue;
                    },
                }
            }
            args.positional.push(t.clone());
            proof {
                assert(args@ =~~= spec_push_positional(pre, t@));
            }
            i += 1;
        }
        proof {
            assert(spec_parse_from(toks, i as int, finished, args@) == Ok::<
                ArgsView,
                ParseErrorView,
            >(args@));
        }
        Ok(())
    }
}

} // verus!
