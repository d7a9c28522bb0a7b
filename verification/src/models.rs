//! Model metadata: the descriptor record for a selectable model, the
//! settings types that configure the provider, and the fixed built-in
//! model list.

use vstd::prelude::*;
use crate::text::lex_lt;

verus! {

/// Metadata of one selectable model variant.
pub struct ModelDescriptor {
    pub name: String,
    pub display_name: String,
    pub max_tokens: usize,
    pub max_output_tokens: Option<u32>,
    pub max_completion_tokens: Option<u32>,
}

/// Mathematical image of a descriptor: strings as character sequences.
pub ghost struct DescView {
    pub name: Seq<char>,
    pub display_name: Seq<char>,
    pub max_tokens: usize,
    pub max_output_tokens: Option<u32>,
    pub max_completion_tokens: Option<u32>,
}

impl View for ModelDescriptor {
    type V = DescView;

    open spec fn view(&self) -> DescView {
        DescView {
            name: self.name@,
            display_name: self.display_name@,
            max_tokens: self.max_tokens,
            max_output_tokens: self.max_output_tokens,
            max_completion_tokens: self.max_completion_tokens,
        }
    }
}

impl Clone for ModelDescriptor {
    fn clone(&self) -> (r: Self)
        ensures
            r@ == self@,
    {
        ModelDescriptor {
            name: self.name.clone(),
            display_name: self.display_name.clone(),
            max_tokens: self.max_tokens,
            max_output_tokens: self.max_output_tokens,
            max_completion_tokens: self.max_completion_tokens,
        }
    }
}

/// An operator-configured model override from settings; matched against
/// built-ins by name.
pub struct AvailableModel {
    pub name: String,
    pub display_name: String,
    pub max_tokens: usize,
    pub max_output_tokens: Option<u32>,
    pub max_completion_tokens: Option<u32>,
}

impl View for AvailableModel {
    type V = DescView;

    open spec fn view(&self) -> DescView {
        DescView {
            name: self.name@,
            display_name: self.display_name@,
            max_tokens: self.max_tokens,
            max_output_tokens: self.max_output_tokens,
            max_completion_tokens: self.max_completion_tokens,
        }
    }
}

impl AvailableModel {
    /// The descriptor that a settings entry contributes to the catalog.
    pub fn to_descriptor(&self) -> (r: ModelDescriptor)
        ensures
            r@ == self@,
    {
        ModelDescriptor {
            name: self.name.clone(),
            display_name: self.display_name.clone(),
            max_tokens: self.max_tokens,
            max_output_tokens: self.max_output_tokens,
            max_completion_tokens: self.max_completion_tokens,
        }
    }
}

/// The provider's slice of the settings: the endpoint URL and the
/// operator-configured model overrides.
pub struct GrokSettings {
    pub api_url: String,
    pub available_models: Vec<AvailableModel>,
}

pub ghost struct GrokSettingsView {
    pub api_url: Seq<char>,
    pub available_models: Seq<DescView>,
}

impl View for GrokSettings {
    type V = GrokSettingsView;

    open spec fn view(&self) -> GrokSettingsView {
        GrokSettingsView {
            api_url: self.api_url@,
            available_models: Seq::new(
                self.available_models@.len(),
                |i: int| self.available_models@[i]@,
            ),
        }
    }
}

/// One catalog slot: the key under which the slot is selected and
/// overridden, and the descriptor it carries. For most built-ins the key
/// equals the descriptor's name; the thinking variants are keyed under a
/// distinct alias while naming the underlying model.
pub struct CatalogEntry {
    pub key: String,
    pub model: ModelDescriptor,
}

pub ghost struct EntryView {
    pub key: Seq<char>,
    pub model: DescView,
}

impl View for CatalogEntry {
    type V = EntryView;

    open spec fn view(&self) -> EntryView {
        EntryView { key: self.key@, model: self.model@ }
    }
}

impl Clone for CatalogEntry {
    fn clone(&self) -> (r: Self)
        ensures
            r@ == self@,
    {
        CatalogEntry { key: self.key.clone(), model: self.model.clone() }
    }
}

/// The views of a sequence of catalog entries.
pub open spec fn entry_views(s: Seq<CatalogEntry>) -> Seq<EntryView> {
    Seq::new(s.len(), |i: int| s[i]@)
}

/// Entries strictly ordered by key; key order is `lex_lt` over characters.
pub open spec fn sorted_by_key(s: Seq<EntryView>) -> bool {
    forall|i: int, j: int| 0 <= i < j < s.len() ==> lex_lt(s[i].key, s[j].key)
}

pub open spec fn builtin_desc(
    name: Seq<char>,
    display_name: Seq<char>,
    max_tokens: usize,
) -> DescView {
    DescView {
        name: name,
        display_name: display_name,
        max_tokens: max_tokens,
        max_output_tokens: Some(4096u32),
        max_completion_tokens: Some(4096u32),
    }
}

/// The fixed built-in model list, in the order it is fed to the catalog.
pub open spec fn builtin_list() -> Seq<EntryView> {
    seq![
        EntryView {
            key: "grok-3-latest"@,
            model: builtin_desc("grok-3-latest"@, "Grok 3"@, 131072),
        },
        EntryView {
            key: "grok-3-fast-latest"@,
            model: builtin_desc("grok-3-fast-latest"@, "Grok 3 Fast"@, 131072),
        },
        EntryView {
            key: "grok-3-mini-latest"@,
            model: builtin_desc("grok-3-mini-latest"@, "Grok 3 Mini"@, 131072),
        },
        EntryView {
            key: "grok-3-mini-fast-latest"@,
            model: builtin_desc("grok-3-mini-fast-latest"@, "Grok 3 Mini Fast"@, 131072),
        },
        EntryView {
            key: "grok-3-mini-thinking-latest"@,
            model: builtin_desc("grok-3-mini-latest"@, "Grok 3 Mini (Thinking)"@, 131072),
        },
        EntryView {
            key: "grok-3-mini-thinking-fast-latest"@,
            model: builtin_desc("grok-3-mini-fast-latest"@, "Grok 3 Mini Fast (Thinking)"@, 131072),
        },
        EntryView {
            key: "grok-2-latest"@,
            model: builtin_desc("grok-2-latest"@, "Grok 2"@, 131072),
        },
        EntryView {
            key: "grok-2-vision-latest"@,
            model: builtin_desc("grok-2-vision-latest"@, "Grok 2 Vision"@, 32768),
        },
    ]
}

/// Builds one catalog entry from literal parts.
fn mk_entry(key: &str, name: &str, display_name: &str, max_tokens: usize) -> (r: CatalogEntry)
    ensures
        r@.key == key@,
        r@.model == builtin_desc(name@, display_name@, max_tokens),
{
    CatalogEntry {
        key: key.to_owned(),
        model: ModelDescriptor {
            name: name.to_owned(),
            display_name: display_name.to_owned(),
            max_tokens: max_tokens,
            max_output_tokens: Some(4096),
            max_completion_tokens: Some(4096),
        },
    }
}

/// The built-in model list as values.
pub fn builtin_entries() -> (r: Vec<CatalogEntry>)
    ensures
        entry_views(r@) =~= builtin_list(),
{
    let mut v: Vec<CatalogEntry> = Vec::new();
    v.push(mk_entry("grok-3-latest", "grok-3-latest", "Grok 3", 131072));
    v.push(mk_entry("grok-3-fast-latest", "grok-3-fast-latest", "Grok 3 Fast", 131072));
    v.push(mk_entry("grok-3-mini-latest", "grok-3-mini-latest", "Grok 3 Mini", 131072));
    v.push(mk_entry("grok-3-mini-fast-latest", "grok-3-mini-fast-latest", "Grok 3 Mini Fast",
        131072));
    v.push(mk_entry("grok-3-mini-thinking-latest", "grok-3-mini-latest", "Grok 3 Mini (Thinking)",
        131072));
    v.push(mk_entry("grok-3-mini-thinking-fast-latest", "grok-3-mini-fast-latest",
        "Grok 3 Mini Fast (Thinking)", 131072));
    v.push(mk_entry("grok-2-latest", "grok-2-latest", "Grok 2", 131072));
    v.push(mk_entry("grok-2-vision-latest", "grok-2-vision-latest", "Grok 2 Vision", 32768));
    v
}

} // verus!
