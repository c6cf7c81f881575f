//! The Pokemon dataset records and the sprite-path computation: given a
//! record, a requested form and the shiny switch, which art file should be
//! read.

use vstd::prelude::*;
use vstd::string::StringExecFns;

use crate::util::push_char;
use crate::util::str_eq;

verus! {

/// A single Pokemon entry of the bundled dataset: its Pokedex index, its
/// slug (the file-name stem of its sprites), its generation, its English
/// display name and description, and the names of its alternative forms.
pub struct Pokemon {
    pub idx: u32,
    pub slug: String,
    pub gen: u8,
    pub name_en: String,
    pub desc_en: String,
    pub forms: Vec<String>,
}

/// The model of a `Pokemon`.
#[verifier::ext_equal]
pub ghost struct PokemonView {
    pub idx: u32,
    pub slug: Seq<char>,
    pub gen: u8,
    pub name_en: Seq<char>,
    pub desc_en: Seq<char>,
    pub forms: Seq<Seq<char>>,
}

impl View for Pokemon {
    type V = PokemonView;

    open spec fn view(&self) -> PokemonView {
        PokemonView {
            idx: self.idx,
            slug: self.slug@,
            gen: self.gen,
            name_en: self.name_en@,
            desc_en: self.desc_en@,
            forms: self.forms.deep_view(),
        }
    }
}

impl DeepView for Pokemon {
    type V = PokemonView;

    open spec fn deep_view(&self) -> PokemonView {
        self.view()
    }
}

/// An error in computing a sprite path.
#[derive(Debug)]
pub enum PokemonError {
    /// A form was requested together with the shiny variant; shiny sprites
    /// exist only for the base form.
    ShinyWithForm { form: String },
    /// The requested form is not one of the Pokemon's forms.
    InvalidForm { slug: String },
}

/// The model of a `PokemonError`.
#[verifier::ext_equal]
pub ghost enum PokemonErrorView {
    ShinyWithForm { form: Seq<char> },
    InvalidForm { slug: Seq<char> },
}

impl View for PokemonError {
    type V = PokemonErrorView;

    open spec fn view(&self) -> PokemonErrorView {
        match self {
            PokemonError::ShinyWithForm { form } => PokemonErrorView::ShinyWithForm {
                form: form@,
            },
            PokemonError::InvalidForm { slug } => PokemonErrorView::InvalidForm { slug: slug@ },
        }
    }
}

/// The display text of a sprite-path error.
pub open spec fn spec_pokemon_error_message(e: PokemonErrorView) -> Seq<char> {
    match e {
        PokemonErrorView::ShinyWithForm { form } => "form value set to Some(\""@ + form
            + "\") when shiny set to True."@,
        PokemonErrorView::InvalidForm { slug } => "Invalid form for "@ + slug,
    }
}

impl PokemonError {
    /// Render the error as the text the entry point prints.
    pub fn message(&self) -> (r: String)
        ensures
            r@ == spec_pokemon_error_message(self@),
    {
        match self {
            PokemonError::ShinyWithForm { form } => {
                let mut out = String::from_str("form value set to Some(\"");
                crate::util::write(&mut out, form.as_str());
                crate::util::write(&mut out, "\") when shiny set to True.");
                out
            },
            PokemonError::InvalidForm { slug } => {
                let mut out = String::from_str("Invalid form for ");
                crate::util::write(&mut out, slug.as_str());
                out
            },
        }
    }
}

/// Whether `f` is one of the form names in `forms`.
pub open spec fn spec_has_form(forms: Seq<Seq<char>>, f: Seq<char>) -> bool {
    exists|i: int| 0 <= i < forms.len() && forms[i] == f
}

/// Scan the form list for `f`.
fn contains_form(forms: &Vec<String>, f: &str) -> (r: bool)
    ensures
        r == spec_has_form(forms.deep_view(), f@),
{
    let mut i: usize = 0;
    while i < forms.len()
        invariant
            i <= forms@.len(),
            forall|j: int| 0 <= j < i ==> forms.deep_view()[j] != f@,
        decreases forms@.len() - i,
    {
        if str_eq(forms[i].as_str(), f) {
            proof {
                assert(forms.deep_view()[i as int] == f@);
            }
            return true;
        }
        proof {
            assert(forms.deep_view()[i as int] != f@);
        }
        i += 1;
    }
    false
}

/// The file-name stem for a record and an optional form: the slug alone,
/// or `slug-form` for a known form; an unknown form is an error.
pub open spec fn spec_form_slug(p: PokemonView, form: Option<Seq<char>>) -> Result<
    Seq<char>,
    PokemonErrorView,
> {
    match form {
        Some(f) => if spec_has_form(p.forms, f) {
            Ok(p.slug + seq!['-'] + f)
        } else {
            Err(PokemonErrorView::InvalidForm { slug: p.slug })
        },
        None => Ok(p.slug),
    }
}

/// The art file for a record: `assets/colorscripts/{shiny|regular}/{stem}`.
/// A form together with the shiny switch is rejected first; then the stem
/// is computed from the slug and the form.
pub open spec fn spec_sprite_path(p: PokemonView, form: Option<Seq<char>>, shiny: bool) -> Result<
    Seq<char>,
    PokemonErrorView,
> {
    if shiny && form is Some {
        Err(
            PokemonErrorView::ShinyWithForm {
                form: match form {
                    Some(f) => f,
                    None => Seq::empty(),
                },
            },
        )
    } else {
        match spec_form_slug(p, form) {
            Err(e) => Err(e),
            Ok(stem) => Ok(
                "assets/colorscripts/"@ + (if shiny {
                    "shiny"@
                } else {
                    "regular"@
                }) + seq!['/'] + stem,
            ),
        }
    }
}

impl Pokemon {
    /// The path of the sprite file to print for this record, the requested
    /// form and the shiny switch.
    pub fn get_sprite_path(&self, form: &Option<String>, shiny: bool) -> (r: Result<
        String,
        PokemonError,
    >)
        ensures
            match r {
                Ok(path) => spec_sprite_path(self@, form.deep_view(), shiny) == Ok::<
                    Seq<char>,
                    PokemonErrorView,
                >(path@),
                Err(e) => spec_sprite_path(self@, form.deep_view(), shiny) == Err::<
                    Seq<char>,
                    PokemonErrorView,
                >(e@),
            },
    {
        // Shiny sprites exist only for the base form.
        if shiny {
            if let Some(f) = form {
                return Err(PokemonError::ShinyWithForm { form: f.clone() });
            }
        }
        match self.get_form_slug(form) {
            Err(e) => Err(e),
            Ok(stem) => {
                let mut out = String::from_str("assets/colorscripts/");
                crate::util::write(&mut out, if shiny { "shiny" } else { "regular" });
                push_char(&mut out, '/');
                crate::util::write(&mut out, stem.as_str());
                proof {
                    assert(out@ =~= "assets/colorscripts/"@ + (if shiny {
                        "shiny"@
                    } else {
                        "regular"@
                    }) + seq!['/'] + stem@);
                }
                Ok(out)
            },
        }
    }

    /// The file-name stem for this record and an optional form.
    pub fn get_form_slug(&self, form: &Option<String>) -> (r: Result<String, PokemonError>)
        ensures
            match r {
                Ok(stem) => spec_form_slug(self@, form.deep_view()) == Ok::<
                    Seq<char>,
                    PokemonErrorView,
                >(stem@),
                Err(e) => spec_form_slug(self@, form.deep_view()) == Err::<
                    Seq<char>,
                    PokemonErrorView,
                >(e@),
            },
    {
        match form {
            Some(f) => {
                if contains_form(&self.forms, f.as_str()) {
                    let mut out = self.slug.clone();
                    push_char(&mut out, '-');
                    crate::util::write(&mut out, f.as_str());
                    proof {
                        assert(out@ =~= self.slug@ + seq!['-'] + f@);
                    }
                    Ok(out)
                } else {
                    Err(PokemonError::InvalidForm { slug: self.slug.clone() })
                }
            },
            None => Ok(self.slug.clone()),
        }
    }
}

/// The whole dataset: every Pokemon record, in dataset order.
pub struct Pokemons(pub Vec<Pokemon>);

impl View for Pokemons {
    type V = Seq<PokemonView>;

    open spec fn view(&self) -> Seq<PokemonView> {
        self.0.deep_view()
    }
}

impl Pokemons {
    /// Wrap a loaded record list.
    pub fn new(records: Vec<Pokemon>) -> (p: Pokemons)
        ensures
            p@ == records.deep_view(),
    {
        Pokemons(records)
    }

    /// Returns the number of pokemons in the dataset, also referred to as
    /// its length.
    pub fn len(&self) -> (n: usize)
        ensures
            n == self@.len(),
    {
        self.0.len()
    }

    /// Returns a slice over all the `Pokemon` in the dataset.
    pub fn get_all(&self) -> (r: &[Pokemon])
        ensures
            r.deep_view() == self@,
            r@.len() == self@.len(),
    {
        self.0.as_slice()
    }
}

} // verus!
