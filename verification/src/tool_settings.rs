//! Which tools a model may be offered.
use vstd::prelude::*;
use crate::text::{push_chars, chars_of, same_text, string_of};

verus! {

/// The local inference servers a chat can use.
#[derive(Clone, Copy, Debug, PartialEq, Eq, Structural)]
pub enum InferenceBackend {
    Ollama,
    OpenVino,
}

impl InferenceBackend {
    pub open spec fn spec_name(self) -> Seq<char> {
        match self {
            InferenceBackend::Ollama => "Ollama"@,
            InferenceBackend::OpenVino => "OpenVINO"@,
        }
    }

    /// The server's display name, also used in image-editing model keys.
    pub fn server_name(self) -> (out: &'static str)
        ensures
            out@ == self.spec_name(),
    {
        match self {
            InferenceBackend::Ollama => "Ollama",
            InferenceBackend::OpenVino => "OpenVINO",
        }
    }
}

/// The user's tool preferences.
#[derive(Clone, Debug)]
pub struct ToolSettings {
    /// Master toggle: when false, no tools are offered to the model at all.
    pub enabled: bool,
    pub web_search: bool,
    pub fetch_webpage: bool,
    pub conversation_search: bool,
    /// Disabled by default because it invokes local compilers/interpreters.
    pub code_checking: bool,
    /// Explicit opt-in per backend/model; empty means no bot can edit images.
    pub image_editing_models: Vec<String>,
}

/// The key under which image editing is enabled for a backend and model.
pub open spec fn spec_image_model_key(backend: InferenceBackend, model: Seq<char>) -> Seq<char> {
    backend.spec_name() + "/"@ + model
}

impl ToolSettings {
    /// The defaults: every tool but code checking, and no image-editing model.
    pub fn new_default() -> (out: Self)
        ensures
            out.enabled && out.web_search && out.fetch_webpage && out.conversation_search,
            !out.code_checking,
            out.image_editing_models@.len() == 0,
    {
        ToolSettings {
            enabled: true,
            web_search: true,
            fetch_webpage: true,
            conversation_search: true,
            code_checking: false,
            image_editing_models: Vec::new(),
        }
    }

    pub open spec fn spec_any_tool_enabled(&self) -> bool {
        self.enabled && (self.web_search || self.fetch_webpage || self.conversation_search
            || self.code_checking || self.image_editing_models@.len() > 0)
    }

    pub fn any_tool_enabled(&self) -> (out: bool)
        ensures
            out == self.spec_any_tool_enabled(),
    {
        self.enabled && (self.web_search || self.fetch_webpage || self.conversation_search
            || self.code_checking || self.image_editing_models.len() > 0)
    }

    pub open spec fn spec_image_editing_allowed(
        &self,
        backend: InferenceBackend,
        model: Seq<char>,
    ) -> bool {
        self.enabled && exists|i: int|
            0 <= i < self.image_editing_models@.len()
                && #[trigger] self.image_editing_models@[i]@ == spec_image_model_key(backend, model)
    }

    pub fn image_editing_allowed(&self, backend: InferenceBackend, model: &str) -> (out: bool)
        ensures
            out == self.spec_image_editing_allowed(backend, model@),
    {
        if !self.enabled {
            return false;
        }
        let key = Self::image_model_key(backend, model);
        let mut i: usize = 0;
        while i < self.image_editing_models.len()
            invariant
                i <= self.image_editing_models@.len(),
                self.enabled,
                key@ == spec_image_model_key(backend, model@),
                forall|j: int|
                    0 <= j < i ==> #[trigger] self.image_editing_models@[j]@ != key@,
            decreases self.image_editing_models@.len() - i,
        {
            if same_text(self.image_editing_models[i].as_str(), key.as_str()) {
                assert(self.image_editing_models@[i as int]@ == key@);
                return true;
            }
            i = i + 1;
        }
        false
    }

    pub fn image_model_key(backend: InferenceBackend, model: &str) -> (out: String)
        ensures
            out@ == spec_image_model_key(backend, model@),
    {
        let mut key = string_of(chars_of(backend.server_name()).as_slice());
        push_chars(&mut key, chars_of("/").as_slice());
        push_chars(&mut key, chars_of(model).as_slice());
        key
    }

    pub open spec fn spec_web_tools_enabled(&self) -> bool {
        self.enabled && (self.web_search || self.fetch_webpage)
    }

    pub fn web_tools_enabled(&self) -> (out: bool)
        ensures
            out == self.spec_web_tools_enabled(),
    {
        self.enabled && (self.web_search || self.fetch_webpage)
    }

    /// Applies the per-conversation Web switch without changing the global
    /// tool preference or local-only tools such as conversation search.
    pub fn for_chat_web_enabled(self, web_enabled: bool) -> (out: Self)
        ensures
            out.enabled == self.enabled,
            out.conversation_search == self.conversation_search,
            out.code_checking == self.code_checking,
            out.image_editing_models@ == self.image_editing_models@,
            out.web_search == (self.web_search && web_enabled),
            out.fetch_webpage == (self.fetch_webpage && web_enabled),
    {
        let mut out = self;
        if !web_enabled {
            out.web_search = false;
            out.fetch_webpage = false;
        }
        out
    }
}

impl Default for ToolSettings {
    fn default() -> (out: Self)
        ensures
            out.enabled && out.web_search && out.fetch_webpage && out.conversation_search,
            !out.code_checking,
            out.image_editing_models@.len() == 0,
    {
        ToolSettings::new_default()
    }
}

} // verus!
