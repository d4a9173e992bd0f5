//! Prompt configuration: which model, temperature and system prompts answer
//! each language-server method.

use vstd::prelude::*;
use crate::paragraphs::{paragraph_separator, split_on, split_paragraphs};
use crate::text::{chars_of, range_equals, string_of};

verus! {

broadcast use vstd::string::group_string_axioms;

/// The method name of the entry used when no entry names the requested method.
pub open spec fn fallback_method() -> Seq<char> {
    seq!['f', 'a', 'l', 'l', 'b', 'a', 'c', 'k']
}

/// One entry of the prompt configuration file.
pub struct PromptConfigEntry {
    /// The language-server method this entry answers.
    pub method: String,
    /// The model that is asked.
    pub model: String,
    /// The sampling temperature, as the bits of an `f32`.
    pub model_temperature_bits: u32,
    /// The prompt file, relative to the configuration folder.
    pub file: String,
    /// The paragraphs of the prompt file, each sent as one system message.
    pub prompt_messages: Vec<String>,
}

impl PromptConfigEntry {
    /// The entry's prompt messages as character sequences.
    pub open spec fn prompt_views(&self) -> Seq<Seq<char>> {
        self.prompt_messages@.map_values(|m: String| m@)
    }

    /// Loads the text of the entry's prompt file: its paragraphs become the
    /// prompt messages; nothing else changes.
    pub fn set_prompt_text(&mut self, text: &str)
        ensures
            final(self).prompt_views() == split_on(text@, paragraph_separator()),
            final(self).method == old(self).method,
            final(self).model == old(self).model,
            final(self).model_temperature_bits == old(self).model_temperature_bits,
            final(self).file == old(self).file,
    {
        self.prompt_messages = split_paragraphs(text);
    }
}

/// The parsed prompt configuration file.
pub struct PromptConfigFile {
    /// The entries, in file order.
    pub prompts: Vec<PromptConfigEntry>,
}

/// `i` is the first entry of `prompts` whose method is `method`.
pub open spec fn is_first_entry(prompts: Seq<PromptConfigEntry>, method: Seq<char>, i: int) -> bool {
    &&& 0 <= i < prompts.len()
    &&& prompts[i].method@ == method
    &&& forall|j: int| 0 <= j < i ==> prompts[j].method@ != method
}

/// The index of the first entry of `prompts` whose method is `method`.
pub open spec fn first_entry_index(prompts: Seq<PromptConfigEntry>, method: Seq<char>) -> Option<int> {
    if exists|i: int| is_first_entry(prompts, method, i) {
        Some(choose|i: int| is_first_entry(prompts, method, i))
    } else {
        None
    }
}

/// The entry found for a method is the first one naming it: when an index is
/// found, its entry names the method and no earlier entry does; when none is
/// found, no entry names the method.
pub proof fn lemma_first_entry_index(prompts: Seq<PromptConfigEntry>, method: Seq<char>)
    ensures
        first_entry_index(prompts, method) matches Some(i) ==> {
            &&& 0 <= i < prompts.len()
            &&& prompts[i].method@ == method
            &&& forall|j: int| 0 <= j < i ==> prompts[j].method@ != method
        },
        first_entry_index(prompts, method) is None ==> forall|j: int|
            0 <= j < prompts.len() ==> prompts[j].method@ != method,
{
    if first_entry_index(prompts, method) is None {
        assert forall|j: int| 0 <= j < prompts.len() implies prompts[j].method@ != method by {
            if prompts[j].method@ == method {
                lemma_some_entry_has_first(prompts, method, j);
            }
        }
    }
}

/// Wherever an entry names the method, a first such entry exists.
proof fn lemma_some_entry_has_first(prompts: Seq<PromptConfigEntry>, method: Seq<char>, j: int)
    requires
        0 <= j < prompts.len(),
        prompts[j].method@ == method,
    ensures
        exists|i: int| is_first_entry(prompts, method, i),
    decreases j,
{
    if exists|k: int| 0 <= k < j && prompts[k].method@ == method {
        let k = choose|k: int| 0 <= k < j && prompts[k].method@ == method;
        lemma_some_entry_has_first(prompts, method, k);
    } else {
        assert(is_first_entry(prompts, method, j));
    }
}

impl PromptConfigFile {
    /// Some entry names the fallback method.
    pub open spec fn has_fallback_entry(&self) -> bool {
        first_entry_index(self.prompts@, fallback_method()) is Some
    }

    /// The first entry for `method`, if any.
    pub fn get(&self, method: &str) -> (r: Option<&PromptConfigEntry>)
        ensures
            match first_entry_index(self.prompts@, method@) {
                Some(i) => r == Some(&self.prompts@[i]),
                None => r is None,
            },
    {
        let wanted = chars_of(method);
        let mut i: usize = 0;
        while i < self.prompts.len()
            invariant
                i <= self.prompts@.len(),
                wanted@ == method@,
                forall|j: int| 0 <= j < i ==> self.prompts@[j].method@ != method@,
            decreases self.prompts.len() - i,
        {
            let name = chars_of(self.prompts[i].method.as_str());
            if name.len() == wanted.len() && range_equals(&name, 0, name.len(), &wanted) {
                proof {
                    assert(name@.subrange(0, name@.len() as int) =~= name@);
                    assert(is_first_entry(self.prompts@, method@, i as int));
                }
                return Some(&self.prompts[i]);
            }
            proof {
                assert(name@.subrange(0, name@.len() as int) =~= name@);
            }
            i = i + 1;
        }
        None
    }

    /// Whether some entry names the fallback method.
    pub fn has_fallback(&self) -> (r: bool)
        ensures
            r == self.has_fallback_entry(),
    {
        let name = string_of(&['f', 'a', 'l', 'l', 'b', 'a', 'c', 'k']);
        assert(name@ =~= fallback_method());
        self.get(name.as_str()).is_some()
    }

    /// The entry for `method`, or else the fallback entry.
    pub fn get_or_default(&self, method: &str) -> (r: &PromptConfigEntry)
        requires
            self.has_fallback_entry(),
        ensures
            match first_entry_index(self.prompts@, method@) {
                Some(i) => r == &self.prompts@[i],
                None => r == &self.prompts@[first_entry_index(self.prompts@, fallback_method())->0],
            },
    {
        match self.get(method) {
            Some(entry) => entry,
            None => {
                let name = string_of(&['f', 'a', 'l', 'l', 'b', 'a', 'c', 'k']);
                assert(name@ =~= fallback_method());
                match self.get(name.as_str()) {
                    Some(entry) => entry,
                    None => {
                        assert(false);
                        &self.prompts[0]
                    },
                }
            },
        }
    }
}

/// The prompt configuration read from a folder: the folder and the parsed
/// configuration file, which always holds a fallback entry.
pub struct PromptConfig {
    folder: String,
    file: PromptConfigFile,
}

impl PromptConfig {
    #[verifier::type_invariant]
    spec fn holds_fallback(self) -> bool {
        self.file.has_fallback_entry()
    }

    /// The folder that the configuration was read from.
    pub closed spec fn folder_view(&self) -> Seq<char> {
        self.folder@
    }

    /// The entries of the configuration.
    pub closed spec fn entries(&self) -> Seq<PromptConfigEntry> {
        self.file.prompts@
    }

    /// A configuration for `folder` made of `file`; `None` when `file` has no
    /// fallback entry.
    pub fn from_parts(folder: String, file: PromptConfigFile) -> (r: Option<PromptConfig>)
        ensures
            r is Some <==> file.has_fallback_entry(),
            r matches Some(c) ==> c.folder_view() == folder@ && c.entries() == file.prompts@,
    {
        if file.has_fallback() {
            Some(PromptConfig { folder, file })
        } else {
            None
        }
    }

    /// The folder that the configuration was read from.
    pub fn folder(&self) -> (r: &str)
        ensures
            r@ == self.folder_view(),
    {
        self.folder.as_str()
    }

    /// Puts a freshly read configuration file in place of the current one;
    /// a file without fallback entry is refused and changes nothing.
    pub fn reload(&mut self, file: PromptConfigFile) -> (r: bool)
        ensures
            r == file.has_fallback_entry(),
            final(self).folder_view() == old(self).folder_view(),
            final(self).entries() == (if r { file.prompts@ } else { old(self).entries() }),
    {
        if file.has_fallback() {
            self.file = file;
            true
        } else {
            false
        }
    }

    /// The first entry for `method`, if any.
    pub fn get(&self, method: &str) -> (r: Option<&PromptConfigEntry>)
        ensures
            match first_entry_index(self.entries(), method@) {
                Some(i) => r == Some(&self.entries()[i]),
                None => r is None,
            },
    {
        self.file.get(method)
    }

    /// The entry for `method`, or else the fallback entry.
    pub fn get_or_default(&self, method: &str) -> (r: &PromptConfigEntry)
        ensures
            first_entry_index(self.entries(), fallback_method()) is Some,
            match first_entry_index(self.entries(), method@) {
                Some(i) => r == &self.entries()[i],
                None => r == &self.entries()[first_entry_index(self.entries(), fallback_method())->0],
            },
    {
        proof {
            use_type_invariant(self);
        }
        self.file.get_or_default(method)
    }
}

} // verus!
