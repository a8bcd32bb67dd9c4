//! How much a model may reason, and what a model's details say about it:
//! the reasoning levels it accepts and whether it reads images.
use vstd::prelude::*;
use crate::text::{ascii_lower, ascii_lower_chars, chars_of, contains, contains_chars, same_text};

verus! {

/// A reasoning level, from none to the most.
#[derive(Clone, Copy, Debug, PartialEq, Eq, Structural)]
pub enum ThinkingLevel {
    Off,
    On,
    Minimal,
    Low,
    Medium,
    High,
    XHigh,
    Max,
}

/// Every level in listing order.
pub open spec fn ordered_levels() -> Seq<ThinkingLevel> {
    seq![
        ThinkingLevel::Off,
        ThinkingLevel::On,
        ThinkingLevel::Minimal,
        ThinkingLevel::Low,
        ThinkingLevel::Medium,
        ThinkingLevel::High,
        ThinkingLevel::XHigh,
        ThinkingLevel::Max,
    ]
}

fn ordered() -> (out: Vec<ThinkingLevel>)
    ensures
        out@ == ordered_levels(),
{
    let out = vec![
        ThinkingLevel::Off,
        ThinkingLevel::On,
        ThinkingLevel::Minimal,
        ThinkingLevel::Low,
        ThinkingLevel::Medium,
        ThinkingLevel::High,
        ThinkingLevel::XHigh,
        ThinkingLevel::Max,
    ];
    assert(out@ =~= ordered_levels());
    out
}

impl ThinkingLevel {
    pub open spec fn spec_api_name(self) -> Seq<char> {
        match self {
            ThinkingLevel::Off => "off"@,
            ThinkingLevel::On => "on"@,
            ThinkingLevel::Minimal => "minimal"@,
            ThinkingLevel::Low => "low"@,
            ThinkingLevel::Medium => "medium"@,
            ThinkingLevel::High => "high"@,
            ThinkingLevel::XHigh => "xhigh"@,
            ThinkingLevel::Max => "max"@,
        }
    }

    /// The level's name in model details and requests.
    pub fn api_name(self) -> (out: &'static str)
        ensures
            out@ == self.spec_api_name(),
    {
        match self {
            ThinkingLevel::Off => "off",
            ThinkingLevel::On => "on",
            ThinkingLevel::Minimal => "minimal",
            ThinkingLevel::Low => "low",
            ThinkingLevel::Medium => "medium",
            ThinkingLevel::High => "high",
            ThinkingLevel::XHigh => "xhigh",
            ThinkingLevel::Max => "max",
        }
    }

    /// The level a reported name stands for: a level's own name, or
    /// `none` for no reasoning.
    pub open spec fn spec_from_api_name(name: Seq<char>) -> Option<ThinkingLevel> {
        if name == "none"@ || name == "off"@ {
            Some(ThinkingLevel::Off)
        } else if name == "on"@ {
            Some(ThinkingLevel::On)
        } else if name == "minimal"@ {
            Some(ThinkingLevel::Minimal)
        } else if name == "low"@ {
            Some(ThinkingLevel::Low)
        } else if name == "medium"@ {
            Some(ThinkingLevel::Medium)
        } else if name == "high"@ {
            Some(ThinkingLevel::High)
        } else if name == "xhigh"@ {
            Some(ThinkingLevel::XHigh)
        } else if name == "max"@ {
            Some(ThinkingLevel::Max)
        } else {
            None
        }
    }

    pub fn from_api_name(name: &str) -> (out: Option<ThinkingLevel>)
        ensures
            out == ThinkingLevel::spec_from_api_name(name@),
    {
        if same_text(name, "none") || same_text(name, "off") {
            Some(ThinkingLevel::Off)
        } else if same_text(name, "on") {
            Some(ThinkingLevel::On)
        } else if same_text(name, "minimal") {
            Some(ThinkingLevel::Minimal)
        } else if same_text(name, "low") {
            Some(ThinkingLevel::Low)
        } else if same_text(name, "medium") {
            Some(ThinkingLevel::Medium)
        } else if same_text(name, "high") {
            Some(ThinkingLevel::High)
        } else if same_text(name, "xhigh") {
            Some(ThinkingLevel::XHigh)
        } else if same_text(name, "max") {
            Some(ThinkingLevel::Max)
        } else {
            None
        }
    }
}

/// The distinct levels among `levels`, in listing order.
pub open spec fn spec_sorted_levels(levels: Seq<ThinkingLevel>) -> Seq<ThinkingLevel> {
    ordered_levels().filter(|l: ThinkingLevel| levels.contains(l))
}

fn has_level(levels: &Vec<ThinkingLevel>, l: ThinkingLevel) -> (out: bool)
    ensures
        out == levels@.contains(l),
{
    let mut i: usize = 0;
    while i < levels.len()
        invariant
            i <= levels@.len(),
            forall|j: int| 0 <= j < i ==> levels@[j] != l,
        decreases levels@.len() - i,
    {
        if levels[i] == l {
            assert(levels@[i as int] == l);
            return true;
        }
        i = i + 1;
    }
    false
}

/// The levels in listing order, each once.
pub fn sorted_thinking_levels(levels: Vec<ThinkingLevel>) -> (out: Vec<ThinkingLevel>)
    ensures
        out@ == spec_sorted_levels(levels@),
{
    let all = ordered();
    let ghost f = |l: ThinkingLevel| levels@.contains(l);
    let mut out: Vec<ThinkingLevel> = Vec::new();
    let mut i: usize = 0;
    while i < all.len()
        invariant
            i <= all@.len(),
            all@ == ordered_levels(),
            f == (|l: ThinkingLevel| levels@.contains(l)),
            out@ == all@.take(i as int).filter(f),
        decreases all@.len() - i,
    {
        reveal(Seq::filter);
        assert(all@.take(i + 1).drop_last() =~= all@.take(i as int));
        if has_level(&levels, all[i]) {
            out.push(all[i]);
        }
        i = i + 1;
    }
    assert(all@.take(i as int) =~= all@);
    out
}

// ---------------------------------------------------------------------------
// Model capabilities
// ---------------------------------------------------------------------------

/// What a model's details say, as far as its capabilities are read.
#[derive(Clone, Debug)]
pub struct ModelDetails {
    /// The `capabilities` list, or `None` when the details have none.
    pub capabilities: Option<Vec<String>>,
    /// The names reported under the level keys (`thinking_levels`,
    /// `reasoning_efforts`, ...) anywhere in the details.
    pub reported_levels: Vec<String>,
    pub renderer: String,
    pub parser: String,
    pub family: String,
    pub template: String,
}

/// What a model can do: the reasoning levels to offer, and reading images.
#[derive(Clone, Debug, PartialEq, Eq)]
pub struct ModelCapabilities {
    pub thinking_levels: Vec<ThinkingLevel>,
    pub vision: bool,
}

pub open spec fn has_capability(caps: Seq<String>, name: Seq<char>) -> bool {
    exists|i: int| 0 <= i < caps.len() && (#[trigger] caps[i])@ == name
}

/// Whether a level was reported by name.
pub open spec fn reported(names: Seq<String>, l: ThinkingLevel) -> bool {
    exists|i: int| 0 <= i < names.len() && ThinkingLevel::spec_from_api_name(#[trigger] names[i]@) == Some(l)
}

/// Whether the renderer, parser or family marks a gpt-oss (harmony) model.
pub open spec fn is_harmony(d: ModelDetails) -> bool {
    let marks = |v: Seq<char>|
        contains(ascii_lower(v), "harmony"@) || contains(ascii_lower(v), "gptoss"@) || contains(
            ascii_lower(v),
            "gpt-oss"@,
        );
    marks(d.renderer@) || marks(d.parser@) || marks(d.family@)
}

/// Whether the template names a level in quotes.
pub open spec fn template_names(template: Seq<char>, l: ThinkingLevel) -> bool {
    contains(ascii_lower(template), "\""@ + l.spec_api_name() + "\""@) || contains(
        ascii_lower(template),
        "'"@ + l.spec_api_name() + "'"@,
    )
}

/// Whether the template speaks of `ThinkLevel` and names some level.
pub open spec fn template_levels(template: Seq<char>) -> bool {
    contains(template, "ThinkLevel"@) && exists|i: int| 0 <= i < 8 && template_names(template, #[trigger] ordered_levels()[i])
}

/// The levels a model offers: for a thinking model, the levels its details
/// report; else low, medium and high for a gpt-oss model; else the levels
/// its template names; else off and on. A model that does not think only
/// has off.
pub open spec fn offered_level(d: ModelDetails, caps: Seq<String>, l: ThinkingLevel) -> bool {
    if !has_capability(caps, "thinking"@) {
        l == ThinkingLevel::Off
    } else if exists|m: ThinkingLevel| #[trigger] reported(d.reported_levels@, m) {
        reported(d.reported_levels@, l)
    } else if is_harmony(d) {
        l == ThinkingLevel::Low || l == ThinkingLevel::Medium || l == ThinkingLevel::High
    } else if template_levels(d.template@) {
        template_names(d.template@, l)
    } else {
        l == ThinkingLevel::Off || l == ThinkingLevel::On
    }
}

fn has_capability_exec(caps: &Vec<String>, name: &str) -> (out: bool)
    ensures
        out == has_capability(caps@, name@),
{
    let mut i: usize = 0;
    while i < caps.len()
        invariant
            i <= caps@.len(),
            forall|j: int| 0 <= j < i ==> (#[trigger] caps@[j])@ != name@,
        decreases caps@.len() - i,
    {
        if same_text(caps[i].as_str(), name) {
            return true;
        }
        i = i + 1;
    }
    false
}

fn marks_harmony(v: &str) -> (out: bool)
    ensures
        out == (contains(ascii_lower(v@), "harmony"@) || contains(ascii_lower(v@), "gptoss"@) || contains(
            ascii_lower(v@),
            "gpt-oss"@,
        )),
{
    let lower = ascii_lower_chars(chars_of(v).as_slice());
    contains_chars(lower.as_slice(), chars_of("harmony").as_slice()) || contains_chars(
        lower.as_slice(),
        chars_of("gptoss").as_slice(),
    ) || contains_chars(lower.as_slice(), chars_of("gpt-oss").as_slice())
}

fn quoted(q: char, name: &str) -> (out: Vec<char>)
    ensures
        out@ == seq![q] + name@ + seq![q],
{
    let mut out: Vec<char> = Vec::new();
    out.push(q);
    let n = chars_of(name);
    let mut i: usize = 0;
    while i < n.len()
        invariant
            i <= n@.len(),
            n@ == name@,
            out@ == seq![q] + n@.take(i as int),
        decreases n@.len() - i,
    {
        out.push(n[i]);
        assert(n@.take(i + 1) =~= n@.take(i as int).push(n@[i as int]));
        i = i + 1;
    }
    assert(n@.take(i as int) =~= n@);
    out.push(q);
    assert(out@ =~= seq![q] + name@ + seq![q]);
    out
}

fn template_names_exec(lower: &[char], l: ThinkingLevel, template: Ghost<Seq<char>>) -> (out: bool)
    requires
        lower@ == ascii_lower(template@),
    ensures
        out == template_names(template@, l),
{
    proof {
        reveal_strlit("\"");
        reveal_strlit("'");
        assert("\""@ =~= seq!['"']);
        assert("'"@ =~= seq!['\'']);
    }
    let name = l.api_name();
    let double = quoted('"', name);
    let single = quoted('\'', name);
    proof {
        assert(double@ =~= "\""@ + l.spec_api_name() + "\""@);
        assert(single@ =~= "'"@ + l.spec_api_name() + "'"@);
    }
    contains_chars(lower, double.as_slice()) || contains_chars(lower, single.as_slice())
}

/// What a model can do, from its details; `None` when they list no
/// capabilities.
pub fn model_capabilities(details: &ModelDetails) -> (out: Option<ModelCapabilities>)
    ensures
        match details.capabilities {
            None => out is None,
            Some(caps) => out matches Some(c) && c.vision == has_capability(caps@, "vision"@)
                && c.thinking_levels@ == ordered_levels().filter(
                |l: ThinkingLevel| offered_level(*details, caps@, l),
            ),
        },
{
    let caps = match &details.capabilities {
        Some(c) => c,
        None => return None,
    };
    let all = ordered();
    let thinking = has_capability_exec(caps, "thinking");
    let mut any_reported = false;
    let mut i: usize = 0;
    while i < details.reported_levels.len()
        invariant
            i <= details.reported_levels@.len(),
            any_reported == exists|j: int| 0 <= j < i && (#[trigger] ThinkingLevel::spec_from_api_name(
                details.reported_levels@[j]@,
            )) is Some,
        decreases details.reported_levels@.len() - i,
    {
        if ThinkingLevel::from_api_name(details.reported_levels[i].as_str()).is_some() {
            any_reported = true;
        }
        i = i + 1;
    }
    proof {
        if any_reported {
            let j = choose|j: int| 0 <= j < details.reported_levels@.len() && (#[trigger] ThinkingLevel::spec_from_api_name(
                details.reported_levels@[j]@,
            )) is Some;
            let m = ThinkingLevel::spec_from_api_name(details.reported_levels@[j]@).unwrap();
            assert(reported(details.reported_levels@, m));
        } else {
            assert forall|m: ThinkingLevel| !#[trigger] reported(details.reported_levels@, m) by {
                if reported(details.reported_levels@, m) {
                    let j = choose|j: int| 0 <= j < details.reported_levels@.len() && ThinkingLevel::spec_from_api_name(
                        #[trigger] details.reported_levels@[j]@,
                    ) == Some(m);
                    assert(ThinkingLevel::spec_from_api_name(details.reported_levels@[j]@) is Some);
                }
            }
        }
    }
    let harmony = marks_harmony(details.renderer.as_str()) || marks_harmony(details.parser.as_str())
        || marks_harmony(details.family.as_str());
    let lower_template = ascii_lower_chars(chars_of(details.template.as_str()).as_slice());
    let has_think_level = contains_chars(chars_of(details.template.as_str()).as_slice(), chars_of("ThinkLevel").as_slice());
    let mut named_any = false;
    let mut k: usize = 0;
    while k < all.len()
        invariant
            k <= 8,
            all@ == ordered_levels(),
            lower_template@ == ascii_lower(details.template@),
            named_any == exists|j: int| 0 <= j < k && template_names(details.template@, #[trigger] ordered_levels()[j]),
        decreases 8 - k,
    {
        if template_names_exec(lower_template.as_slice(), all[k], Ghost(details.template@)) {
            named_any = true;
        }
        k = k + 1;
    }
    let ghost f = |l: ThinkingLevel| offered_level(*details, caps@, l);
    let mut levels: Vec<ThinkingLevel> = Vec::new();
    let mut n: usize = 0;
    while n < all.len()
        invariant
            n <= all@.len(),
            all@ == ordered_levels(),
            lower_template@ == ascii_lower(details.template@),
            thinking == has_capability(caps@, "thinking"@),
            any_reported == exists|m: ThinkingLevel| #[trigger] reported(details.reported_levels@, m),
            harmony == is_harmony(*details),
            (has_think_level && named_any) == template_levels(details.template@),
            f == (|l: ThinkingLevel| offered_level(*details, caps@, l)),
            levels@ == all@.take(n as int).filter(f),
        decreases all@.len() - n,
    {
        reveal(Seq::filter);
        assert(all@.take(n + 1).drop_last() =~= all@.take(n as int));
        let l = all[n];
        let offered = if !thinking {
            l == ThinkingLevel::Off
        } else if any_reported {
            reported_exec(&details.reported_levels, l)
        } else if harmony {
            l == ThinkingLevel::Low || l == ThinkingLevel::Medium || l == ThinkingLevel::High
        } else if has_think_level && named_any {
            template_names_exec(lower_template.as_slice(), l, Ghost(details.template@))
        } else {
            l == ThinkingLevel::Off || l == ThinkingLevel::On
        };
        assert(offered == f(l));
        if offered {
            levels.push(l);
        }
        n = n + 1;
    }
    assert(all@.take(n as int) =~= all@);
    let vision = has_capability_exec(caps, "vision");
    Some(ModelCapabilities { thinking_levels: levels, vision })
}

fn reported_exec(names: &Vec<String>, l: ThinkingLevel) -> (out: bool)
    ensures
        out == reported(names@, l),
{
    let mut i: usize = 0;
    while i < names.len()
        invariant
            i <= names@.len(),
            forall|j: int| 0 <= j < i ==> ThinkingLevel::spec_from_api_name(#[trigger] names@[j]@) != Some(l),
        decreases names@.len() - i,
    {
        match ThinkingLevel::from_api_name(names[i].as_str()) {
            Some(m) => if m == l {
                return true;
            },
            None => {},
        }
        i = i + 1;
    }
    false
}

} // verus!
