//! The registry of models: which model an alias stands for, and with which
//! key it is reached.
use crate::op;
use crate::op::copy_opt;
use crate::text;
use crate::text::same_text;
use vstd::prelude::*;

verus! {

/// A model that is known.  Prices are decimal numbers, in dollars for a million
/// tokens.
#[derive(Debug)]
pub struct ModelEntry {
    pub name: String,
    pub provider: String,
    pub base_url: Option<String>,
    pub api_key: Option<String>,
    pub api_id: Option<String>,
    pub input: String,
    pub output: String,
    pub context: usize,
    pub thinking: bool,
    pub vision: bool,
    pub display: Option<String>,
}

/// The model of an entry.
pub struct ModelEntryV {
    pub name: Seq<char>,
    pub provider: Seq<char>,
    pub base_url: Option<Seq<char>>,
    pub api_key: Option<Seq<char>>,
    pub api_id: Option<Seq<char>>,
    pub input: Seq<char>,
    pub output: Seq<char>,
    pub context: usize,
    pub thinking: bool,
    pub vision: bool,
    pub display: Option<Seq<char>>,
}

impl ModelEntry {
    pub open spec fn view(&self) -> ModelEntryV {
        ModelEntryV {
            name: self.name@,
            provider: self.provider@,
            base_url: op::opt_text(self.base_url),
            api_key: op::opt_text(self.api_key),
            api_id: op::opt_text(self.api_id),
            input: self.input@,
            output: self.output@,
            context: self.context,
            thinking: self.thinking,
            vision: self.vision,
            display: op::opt_text(self.display),
        }
    }
}

/// What a request for a model comes to.
#[derive(Debug)]
pub struct ResolvedModel {
    pub alias: String,
    pub provider: Option<String>,
    pub api_id: String,
    pub base_url: Option<String>,
    pub api_key: Option<String>,
}

/// The model of a resolved model.
pub struct ResolvedModelV {
    pub alias: Seq<char>,
    pub provider: Option<Seq<char>>,
    pub api_id: Seq<char>,
    pub base_url: Option<Seq<char>>,
    pub api_key: Option<Seq<char>>,
}

impl ResolvedModel {
    pub open spec fn view(&self) -> ResolvedModelV {
        ResolvedModelV {
            alias: self.alias@,
            provider: op::opt_text(self.provider),
            api_id: self.api_id@,
            base_url: op::opt_text(self.base_url),
            api_key: op::opt_text(self.api_key),
        }
    }
}

/// The size of the window where an entry does not say it.
pub fn default_context() -> (r: usize)
    ensures
        r == 200_000,
{
    200_000
}

/// All known models.
#[derive(Debug)]
pub struct ModelRegistry {
    pub default_model: String,
    pub models: Vec<ModelEntry>,
}

/// The models of a list of entries.
pub open spec fn entries(list: Seq<ModelEntry>) -> Seq<ModelEntryV> {
    Seq::new(list.len(), |i: int| list[i]@)
}

/// The first entry under a name.
pub open spec fn find(list: Seq<ModelEntryV>, name: Seq<char>) -> Option<ModelEntryV>
    decreases list.len(),
{
    if list.len() == 0 {
        None
    } else if list[0].name == name {
        Some(list[0])
    } else {
        find(list.drop_first(), name)
    }
}

/// Where a key comes from.
#[derive(Debug)]
pub enum KeySource {
    /// There is none.
    Missing,
    Literal(String),
    /// A variable of the environment.
    Env(String),
}

/// The model of a key source.
pub enum KeySourceV {
    Missing,
    Literal(Seq<char>),
    Env(Seq<char>),
}

impl KeySource {
    pub open spec fn view(&self) -> KeySourceV {
        match self {
            KeySource::Missing => KeySourceV::Missing,
            KeySource::Literal(s) => KeySourceV::Literal(s@),
            KeySource::Env(s) => KeySourceV::Env(s@),
        }
    }
}

/// A text without the dollar signs at its start.
pub open spec fn without_dollars(s: Seq<char>) -> Seq<char>
    decreases s.len(),
{
    if s.len() > 0 && s[0] == '$' {
        without_dollars(s.drop_first())
    } else {
        s
    }
}

/// Where the key of an entry comes from; nothing where it refers to a
/// variable without a name.
pub open spec fn key_source(raw: Option<Seq<char>>) -> Option<KeySourceV> {
    match raw {
        None => Some(KeySourceV::Missing),
        Some(s) => if s.len() > 0 && s[0] == '$' {
            let name = without_dollars(s);
            if name.len() == 0 {
                None
            } else {
                Some(KeySourceV::Env(name))
            }
        } else {
            Some(KeySourceV::Literal(s))
        },
    }
}

/// Why a model has no key.
#[derive(Debug)]
pub enum ModelError {
    /// The key refers to a variable without a name.
    EmptyReference,
    /// The variable is not set.
    Unset(String),
}

impl ModelError {
    /// The text of the error.
    pub fn message(&self) -> (r: String)
        ensures
            r@ == match self {
                ModelError::EmptyReference =>
                    "empty environment variable reference in model api_key"@,
                ModelError::Unset(name) => "resolving model api_key env var "@ + name@,
            },
    {
        match self {
            ModelError::EmptyReference =>
                "empty environment variable reference in model api_key".to_owned(),
            ModelError::Unset(name) => {
                let mut out = "resolving model api_key env var ".to_owned();
                out.append(name.as_str());
                out
            },
        }
    }
}

fn drop_dollars(s: &str) -> (r: String)
    ensures
        r@ == without_dollars(s@),
{
    let chars = text::chars_of(s);
    let mut i: usize = 0;
    assert(chars@.skip(0) =~= chars@);
    while i < chars.len() && chars[i] == '$'
        invariant
            i <= chars@.len(),
            without_dollars(chars@) == without_dollars(chars@.skip(i as int)),
        decreases chars@.len() - i,
    {
        assert(chars@.skip(i as int)[0] == chars@[i as int]);
        assert(chars@.skip(i as int).drop_first() =~= chars@.skip(i + 1));
        i += 1;
    }
    assert(i < chars@.len() ==> chars@.skip(i as int)[0] == chars@[i as int]);
    assert(chars@.subrange(i as int, chars@.len() as int) =~= chars@.skip(i as int));
    text::string_of(&chars, i, chars.len())
}

/// Where the key of an entry comes from.
pub fn expand_api_key(raw: &Option<String>) -> (r: Result<KeySource, ModelError>)
    ensures
        match r {
            Ok(k) => key_source(op::opt_text(*raw)) == Some(k@),
            Err(e) => key_source(op::opt_text(*raw)) is None && e is EmptyReference,
        },
{
    match raw {
        None => Ok(KeySource::Missing),
        Some(s) => {
            let chars = text::chars_of(s.as_str());
            if chars.len() > 0 && chars[0] == '$' {
                let name = drop_dollars(s.as_str());
                if name.as_str().is_empty() {
                    Err(ModelError::EmptyReference)
                } else {
                    Ok(KeySource::Env(name))
                }
            } else {
                Ok(KeySource::Literal(s.clone()))
            }
        },
    }
}

/// The alias that is asked for.
pub open spec fn alias_of(default_model: Seq<char>, requested: Option<Seq<char>>) -> Seq<char> {
    match requested {
        Some(s) => s,
        None => default_model,
    }
}

/// The view of an optional text.
pub open spec fn opt_view(s: Option<&str>) -> Option<Seq<char>> {
    match s {
        Some(t) => Some(t@),
        None => None,
    }
}

/// What an alias comes to, if `key` is its key: the entry under it, or the
/// alias as it stands.
pub open spec fn resolution(
    list: Seq<ModelEntryV>,
    alias: Seq<char>,
    key: Option<Seq<char>>,
) -> ResolvedModelV {
    match find(list, alias) {
        Some(e) => ResolvedModelV {
            alias: e.name,
            provider: Some(e.provider),
            api_id: match e.api_id {
                Some(id) => id,
                None => e.name,
            },
            base_url: e.base_url,
            api_key: key,
        },
        None => ResolvedModelV {
            alias,
            provider: None,
            api_id: alias,
            base_url: None,
            api_key: None,
        },
    }
}

/// Where the key of an alias comes from; an unknown alias has none.
pub open spec fn alias_key(list: Seq<ModelEntryV>, alias: Seq<char>) -> Option<KeySourceV> {
    match find(list, alias) {
        Some(e) => key_source(e.api_key),
        None => Some(KeySourceV::Missing),
    }
}

impl ModelRegistry {
    fn entry(&self, name: &str) -> (r: Option<&ModelEntry>)
        ensures
            match r {
                Some(e) => find(entries(self.models@), name@) == Some(e@),
                None => find(entries(self.models@), name@) is None,
            },
    {
        let ghost all = entries(self.models@);
        let mut i: usize = 0;
        assert(all.skip(0) =~= all);
        while i < self.models.len()
            invariant
                i <= self.models@.len(),
                all == entries(self.models@),
                find(all, name@) == find(all.skip(i as int), name@),
            decreases self.models@.len() - i,
        {
            assert(all.skip(i as int)[0] == all[i as int]);
            if same_text(self.models[i].name.as_str(), name) {
                return Some(&self.models[i]);
            }
            assert(all.skip(i as int).drop_first() =~= all.skip(i + 1));
            i += 1;
        }
        None
    }

    /// Where the key of a requested model comes from.
    pub fn api_key_source(&self, requested: Option<&str>) -> (r: Result<KeySource, ModelError>)
        ensures
            match r {
                Ok(k) => alias_key(
                    entries(self.models@),
                    alias_of(self.default_model@, opt_view(requested)),
                ) == Some(k@),
                Err(e) => alias_key(
                    entries(self.models@),
                    alias_of(self.default_model@, opt_view(requested)),
                ) is None && e is EmptyReference,
            },
    {
        let alias = match requested {
            Some(s) => s,
            None => self.default_model.as_str(),
        };
        match self.entry(alias) {
            Some(e) => expand_api_key(&e.api_key),
            None => Ok(KeySource::Missing),
        }
    }

    /// What a requested model comes to; `value` is that of the variable that
    /// its key refers to, where it refers to one that is set.
    pub fn resolve(&self, requested: Option<&str>, value: Option<String>) -> (r: Result<
        ResolvedModel,
        ModelError,
    >)
        ensures
            ({
                let list = entries(self.models@);
                let alias = alias_of(self.default_model@, opt_view(requested));
                match (alias_key(list, alias), op::opt_text(value)) {
                    (None, _) => r matches Err(ModelError::EmptyReference),
                    (Some(KeySourceV::Missing), _) => r matches Ok(m) && m@ == resolution(
                        list,
                        alias,
                        None,
                    ),
                    (Some(KeySourceV::Literal(s)), _) => r matches Ok(m) && m@ == resolution(
                        list,
                        alias,
                        Some(s),
                    ),
                    (Some(KeySourceV::Env(_)), Some(v)) => r matches Ok(m) && m@ == resolution(
                        list,
                        alias,
                        Some(v),
                    ),
                    (Some(KeySourceV::Env(name)), None) => r matches Err(ModelError::Unset(n))
                        && n@ == name,
                }
            }),
    {
        let alias = match requested {
            Some(s) => s,
            None => self.default_model.as_str(),
        };
        let api_key = match self.api_key_source(requested)? {
            KeySource::Missing => None,
            KeySource::Literal(s) => Some(s),
            KeySource::Env(name) => match value {
                Some(v) => Some(v),
                None => {
                    return Err(ModelError::Unset(name));
                },
            },
        };
        match self.entry(alias) {
            Some(e) => Ok(
                ResolvedModel {
                    alias: e.name.clone(),
                    provider: Some(e.provider.clone()),
                    api_id: match &e.api_id {
                        Some(id) => id.clone(),
                        None => e.name.clone(),
                    },
                    base_url: copy_opt(&e.base_url),
                    api_key,
                },
            ),
            None => Ok(
                ResolvedModel {
                    alias: alias.to_owned(),
                    provider: None,
                    api_id: alias.to_owned(),
                    base_url: None,
                    api_key: None,
                },
            ),
        }
    }
}

/// An unknown alias is passed on as it stands.
pub proof fn unknown_alias_is_passed_on(list: Seq<ModelEntryV>, alias: Seq<char>)
    requires
        find(list, alias) is None,
    ensures
        alias_key(list, alias) == Some(KeySourceV::Missing),
        resolution(list, alias, None).api_id == alias,
        resolution(list, alias, None).provider is None,
{
}

} // verus!
