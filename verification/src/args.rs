//! The result of argument parsing: the `Args` record, the operating `Mode`
//! state machine, and the special short-circuit modes.

use vstd::prelude::*;

verus! {

/// The overall mode the tool should operate in.
///
/// The modes are mutually exclusive and live in one enum so that a single
/// update rule can enforce the exclusion.  `-h`/`--help` and `-v`/`--version`
/// are not modes: they are "special" outcomes that short-circuit everything
/// else, whatever their position on the command line.
#[derive(Debug, Clone, Copy, PartialEq, Eq, Structural)]
pub enum Mode {
    List,
    Regular,
    Random,
    RandomByNames,
    RandomByGen,
}

/// A "special" outcome that supersedes everything else.
///
/// When one of these is requested, the tool prints help or version text and
/// exits without parsing validation, data loading or mode dispatch.
#[derive(Debug, Clone, Copy, PartialEq, Eq, Structural)]
pub enum SpecialMode {
    HelpShort,
    HelpLong,
    VersionShort,
    VersionLong,
}

/// Everything the argument parser accumulates.
pub struct Args {
    /// Set when a help/version flag was seen; pre-empts mode dispatch.
    pub special: Option<SpecialMode>,
    /// The operating mode; starts as `Mode::Regular`.
    pub mode: Mode,
    /// Bare tokens that matched no flag, in encounter order.
    pub positional: Vec<String>,
    /// Target Pokemon name; write-once, empty until set.
    pub pokemon_name: String,
    /// Requested form; write-once.
    pub form: Option<String>,
    /// Whether the shiny sprite variant is requested.
    pub shiny: bool,
    /// Whether the list output should include form names.
    pub list_with_forms: bool,
    /// Candidate names for random-by-name mode.
    pub pokemon_names_for_random: Vec<String>,
    /// Generation numbers for random-by-generation mode.
    pub gen_value: Vec<u8>,
}

/// The mathematical model of an `Args` value.
#[verifier::ext_equal]
pub ghost struct ArgsView {
    pub special: Option<SpecialMode>,
    pub mode: Mode,
    pub positional: Seq<Seq<char>>,
    pub pokemon_name: Seq<char>,
    pub form: Option<Seq<char>>,
    pub shiny: bool,
    pub list_with_forms: bool,
    pub pokemon_names_for_random: Seq<Seq<char>>,
    pub gen_value: Seq<u8>,
}

impl View for Args {
    type V = ArgsView;

    open spec fn view(&self) -> ArgsView {
        ArgsView {
            special: self.special,
            mode: self.mode,
            positional: self.positional.deep_view(),
            pokemon_name: self.pokemon_name@,
            form: self.form.deep_view(),
            shiny: self.shiny,
            list_with_forms: self.list_with_forms,
            pokemon_names_for_random: self.pokemon_names_for_random.deep_view(),
            gen_value: self.gen_value@,
        }
    }
}

/// The model of a freshly constructed `Args`: every field at its default.
pub open spec fn spec_default_args() -> ArgsView {
    ArgsView {
        special: None,
        mode: Mode::Regular,
        positional: Seq::empty(),
        pokemon_name: Seq::empty(),
        form: None,
        shiny: false,
        list_with_forms: false,
        pokemon_names_for_random: Seq::empty(),
        gen_value: Seq::empty(),
    }
}

impl Default for Args {
    /// An `Args` with no flags applied yet.
    fn default() -> (a: Args)
        ensures
            a@ == spec_default_args(),
    {
        let a = Args {
            special: None,
            mode: Mode::Regular,
            positional: Vec::new(),
            pokemon_name: String::new(),
            form: None,
            shiny: false,
            list_with_forms: false,
            pokemon_names_for_random: Vec::new(),
            gen_value: Vec::new(),
        };
        proof {
            assert(a@ =~~= spec_default_args());
        }
        a
    }
}

/// The mode override rule: `Regular` is only ever a default, so any mode may
/// replace it; once a non-`Regular` mode is set, no flag may change it, and
/// the attempted transition is a usage error.
pub open spec fn spec_mode_update(cur: Mode, new: Mode) -> (Mode, bool) {
    match cur {
        Mode::Regular => (new, true),
        _ => (cur, false),
    }
}

impl Mode {
    /// Apply the mode override rule, reporting whether the transition was
    /// accepted.  A rejected transition leaves the mode unchanged and is
    /// reported by the caller as a usage error naming the offending flag.
    pub fn update(&mut self, new: Mode) -> (ok: bool)
        ensures
            *final(self) == spec_mode_update(*old(self), new).0,
            ok == spec_mode_update(*old(self), new).1,
    {
        match self {
            Mode::Regular => {
                *self = new;
                true
            },
            _ => false,
        }
    }
}

} // verus!
