//! The encodings this library knows, their special tokens, and the
//! tokenizing entry points.
use crate::core_bpe::special_views;
use vstd::prelude::*;
use vstd::utf8::encode_utf8;

verus! {

/// Split pattern of the r50k_base, p50k_base and p50k_edit encodings.
pub const P50K_PATTERN: &'static str = "'s|'t|'re|'ve|'m|'ll|'d| ?\\p{L}+| ?\\p{N}+| ?[^\\s\\p{L}\\p{N}]+|\\s+(?!\\S)|\\s+";

/// Split pattern of the cl100k_base encoding.
pub const CL100K_PATTERN: &'static str = "(?i:'s|'t|'re|'ve|'m|'ll|'d)|[^\\r\\n\\p{L}\\p{N}]?\\p{L}+|\\p{N}{1,3}| ?[^\\s\\p{L}\\p{N}]+[\\r\\n]*|\\s*[\\r\\n]+|\\s+(?!\\S)|\\s+";

/// The special tokens: reserved strings with ids of their own.
#[derive(Debug, Clone, Copy, PartialEq, Eq, Hash, Structural)]
pub enum SpecialToken {
    EndOfText,
    FimPrefix,
    FimMiddle,
    FimSuffix,
    EndOfPrompt,
}

impl SpecialToken {
    pub open spec fn spec_str(self) -> Seq<char> {
        match self {
            SpecialToken::EndOfText => "<|endoftext|>"@,
            SpecialToken::FimPrefix => "<|fim_prefix|>"@,
            SpecialToken::FimMiddle => "<|fim_middle|>"@,
            SpecialToken::FimSuffix => "<|fim_suffix|>"@,
            SpecialToken::EndOfPrompt => "<|endofprompt|>"@,
        }
    }

    /// The token's text.
    pub fn to_str(&self) -> (r: &'static str)
        ensures
            r@ == self.spec_str(),
    {
        match self {
            SpecialToken::EndOfText => "<|endoftext|>",
            SpecialToken::FimPrefix => "<|fim_prefix|>",
            SpecialToken::FimMiddle => "<|fim_middle|>",
            SpecialToken::FimSuffix => "<|fim_suffix|>",
            SpecialToken::EndOfPrompt => "<|endofprompt|>",
        }
    }

    /// The token's text, as an owned string.
    pub fn to_string(&self) -> (r: String)
        ensures
            r@ == self.spec_str(),
    {
        self.to_str().to_owned()
    }

    pub open spec fn spec_name(self) -> Seq<char> {
        match self {
            SpecialToken::EndOfText => "EndOfText"@,
            SpecialToken::FimPrefix => "FimPrefix"@,
            SpecialToken::FimMiddle => "FimMiddle"@,
            SpecialToken::FimSuffix => "FimSuffix"@,
            SpecialToken::EndOfPrompt => "EndOfPrompt"@,
        }
    }

    /// The name of the variant.
    pub fn name(&self) -> (r: &'static str)
        ensures
            r@ == self.spec_name(),
    {
        match self {
            SpecialToken::EndOfText => "EndOfText",
            SpecialToken::FimPrefix => "FimPrefix",
            SpecialToken::FimMiddle => "FimMiddle",
            SpecialToken::FimSuffix => "FimSuffix",
            SpecialToken::EndOfPrompt => "EndOfPrompt",
        }
    }

    /// Every special token, in a fixed order.
    pub open spec fn spec_all() -> Seq<SpecialToken> {
        seq![
            SpecialToken::EndOfText,
            SpecialToken::FimPrefix,
            SpecialToken::FimMiddle,
            SpecialToken::FimSuffix,
            SpecialToken::EndOfPrompt,
        ]
    }

    /// Every special token, in a fixed order.
    pub fn all() -> (r: Vec<SpecialToken>)
        ensures
            r@ == Self::spec_all(),
    {
        vec![
            SpecialToken::EndOfText,
            SpecialToken::FimPrefix,
            SpecialToken::FimMiddle,
            SpecialToken::FimSuffix,
            SpecialToken::EndOfPrompt,
        ]
    }
}

/// `s`, with `t` added when `present` holds.
pub open spec fn add_if(s: Set<SpecialToken>, present: bool, t: SpecialToken) -> Set<SpecialToken> {
    if present {
        s.insert(t)
    } else {
        s
    }
}

/// `t` alone when `s` holds it, else nothing.
pub open spec fn present(s: Set<SpecialToken>, t: SpecialToken) -> Seq<SpecialToken> {
    if s.contains(t) {
        seq![t]
    } else {
        Seq::empty()
    }
}

proof fn lemma_prefix_set(s: Seq<SpecialToken>, i: int)
    requires
        0 <= i < s.len(),
    ensures
        s.subrange(0, i + 1).to_set() == s.subrange(0, i).to_set().insert(s[i]),
{
    let a = s.subrange(0, i + 1);
    let b = s.subrange(0, i);
    assert forall|x: SpecialToken| a.to_set().contains(x) == b.to_set().insert(s[i]).contains(x) by {
        if a.contains(x) {
            let k = choose|k: int| 0 <= k < a.len() && a[k] == x;
            if k < i {
                assert(b[k] == x);
            }
        }
        if b.contains(x) {
            let k = choose|k: int| 0 <= k < b.len() && b[k] == x;
            assert(a[k] == x);
        }
        if x == s[i] {
            assert(a[i] == x);
        }
    }
    assert(a.to_set() =~= b.to_set().insert(s[i]));
}

/// A set of special tokens, one flag per token. (vstd specifies `HashSet`
/// only for keys with a key model, such as integers, which an enum of this
/// crate does not have.)
#[derive(Debug, Clone, Copy, PartialEq, Eq, Structural)]
pub struct SpecialTokens {
    end_of_text: bool,
    fim_prefix: bool,
    fim_middle: bool,
    fim_suffix: bool,
    end_of_prompt: bool,
}

impl View for SpecialTokens {
    type V = Set<SpecialToken>;

    closed spec fn view(&self) -> Set<SpecialToken> {
        add_if(
            add_if(
                add_if(
                    add_if(add_if(Set::empty(), self.end_of_text, SpecialToken::EndOfText), self.fim_prefix, SpecialToken::FimPrefix),
                    self.fim_middle,
                    SpecialToken::FimMiddle,
                ),
                self.fim_suffix,
                SpecialToken::FimSuffix,
            ),
            self.end_of_prompt,
            SpecialToken::EndOfPrompt,
        )
    }
}

impl Default for SpecialTokens {
    fn default() -> (r: SpecialTokens)
        ensures
            r@ == Set::<SpecialToken>::empty(),
    {
        SpecialTokens::new()
    }
}

impl SpecialTokens {
    closed spec fn flag(&self, t: SpecialToken) -> bool {
        match t {
            SpecialToken::EndOfText => self.end_of_text,
            SpecialToken::FimPrefix => self.fim_prefix,
            SpecialToken::FimMiddle => self.fim_middle,
            SpecialToken::FimSuffix => self.fim_suffix,
            SpecialToken::EndOfPrompt => self.end_of_prompt,
        }
    }

    proof fn lemma_view(&self)
        ensures
            self@.finite(),
            forall|t: SpecialToken| #[trigger] self@.contains(t) == self.flag(t),
            self@.len() == (if self.end_of_text { 1nat } else { 0 }) + (if self.fim_prefix { 1nat } else { 0 })
                + (if self.fim_middle { 1nat } else { 0 }) + (if self.fim_suffix { 1nat } else { 0 }) + (
            if self.end_of_prompt {
                1nat
            } else {
                0
            }),
    {
        let s0 = Set::<SpecialToken>::empty();
        let s1 = add_if(s0, self.end_of_text, SpecialToken::EndOfText);
        let s2 = add_if(s1, self.fim_prefix, SpecialToken::FimPrefix);
        let s3 = add_if(s2, self.fim_middle, SpecialToken::FimMiddle);
        let s4 = add_if(s3, self.fim_suffix, SpecialToken::FimSuffix);
        let s5 = add_if(s4, self.end_of_prompt, SpecialToken::EndOfPrompt);
        assert(!s1.contains(SpecialToken::FimPrefix));
        assert(!s2.contains(SpecialToken::FimMiddle));
        assert(!s3.contains(SpecialToken::FimSuffix));
        assert(!s4.contains(SpecialToken::EndOfPrompt));
        assert forall|t: SpecialToken| #[trigger] s5.contains(t) == self.flag(t) by {
            match t {
                SpecialToken::EndOfText => {},
                SpecialToken::FimPrefix => {},
                SpecialToken::FimMiddle => {},
                SpecialToken::FimSuffix => {},
                SpecialToken::EndOfPrompt => {},
            }
        }
    }

    /// The empty set.
    pub fn new() -> (r: SpecialTokens)
        ensures
            r@ == Set::<SpecialToken>::empty(),
    {
        let r = SpecialTokens {
            end_of_text: false,
            fim_prefix: false,
            fim_middle: false,
            fim_suffix: false,
            end_of_prompt: false,
        };
        proof {
            r.lemma_view();
        }
        assert(r@ =~= Set::<SpecialToken>::empty());
        r
    }

    /// Adds one token.
    pub fn insert(&mut self, token: SpecialToken)
        ensures
            final(self)@ == old(self)@.insert(token),
    {
        match token {
            SpecialToken::EndOfText => self.end_of_text = true,
            SpecialToken::FimPrefix => self.fim_prefix = true,
            SpecialToken::FimMiddle => self.fim_middle = true,
            SpecialToken::FimSuffix => self.fim_suffix = true,
            SpecialToken::EndOfPrompt => self.end_of_prompt = true,
        }
        proof {
            self.lemma_view();
            old(self).lemma_view();
        }
        assert(self@ =~= old(self)@.insert(token));
    }

    /// The set of the tokens of a list.
    pub fn from_vec(tokens: Vec<SpecialToken>) -> (r: SpecialTokens)
        ensures
            r@ == tokens@.to_set(),
    {
        let mut r = SpecialTokens::new();
        r.extend(tokens);
        assert(Set::<SpecialToken>::empty() + tokens@.to_set() =~= tokens@.to_set());
        r
    }

    /// Adds the tokens of a list.
    pub fn extend(&mut self, other: Vec<SpecialToken>)
        ensures
            final(self)@ == old(self)@ + other@.to_set(),
    {
        let ghost start = self@;
        let mut i: usize = 0;
        while i < other.len()
            invariant
                i <= other@.len(),
                self@ == start + other@.subrange(0, i as int).to_set(),
            decreases other@.len() - i,
        {
            self.insert(other[i]);
            proof {
                lemma_prefix_set(other@, i as int);
            }
            assert(self@ =~= start + other@.subrange(0, i + 1).to_set());
            i = i + 1;
        }
        assert(other@.subrange(0, other@.len() as int) =~= other@);
    }

    pub fn contains(&self, token: SpecialToken) -> (r: bool)
        ensures
            r == self@.contains(token),
    {
        proof {
            self.lemma_view();
        }
        match token {
            SpecialToken::EndOfText => self.end_of_text,
            SpecialToken::FimPrefix => self.fim_prefix,
            SpecialToken::FimMiddle => self.fim_middle,
            SpecialToken::FimSuffix => self.fim_suffix,
            SpecialToken::EndOfPrompt => self.end_of_prompt,
        }
    }

    pub fn len(&self) -> (r: usize)
        ensures
            r == self@.len(),
    {
        proof {
            self.lemma_view();
        }
        let mut n: usize = 0;
        if self.end_of_text {
            n = n + 1;
        }
        if self.fim_prefix {
            n = n + 1;
        }
        if self.fim_middle {
            n = n + 1;
        }
        if self.fim_suffix {
            n = n + 1;
        }
        if self.end_of_prompt {
            n = n + 1;
        }
        n
    }

    pub fn is_empty(&self) -> (r: bool)
        ensures
            r == (self@.len() == 0),
    {
        self.len() == 0
    }

    /// The tokens of the set, in the order of `SpecialToken::all`.
    pub fn iter(&self) -> (r: Vec<SpecialToken>)
        ensures
            r@ == self.iter_spec(),
    {
        proof {
            self.lemma_view();
        }
        let mut out: Vec<SpecialToken> = Vec::new();
        if self.end_of_text {
            out.push(SpecialToken::EndOfText);
        }
        if self.fim_prefix {
            out.push(SpecialToken::FimPrefix);
        }
        if self.fim_middle {
            out.push(SpecialToken::FimMiddle);
        }
        if self.fim_suffix {
            out.push(SpecialToken::FimSuffix);
        }
        if self.end_of_prompt {
            out.push(SpecialToken::EndOfPrompt);
        }
        assert(out@ =~= self.iter_spec());
        out
    }

    /// The texts of the tokens of the set, in the order of `iter`.
    pub fn to_str_set(&self) -> (r: Vec<&'static str>)
        ensures
            r@.len() == self.iter_spec().len(),
            forall|i: int| 0 <= i < r@.len() ==> (#[trigger] r@[i])@ == self.iter_spec()[i].spec_str(),
    {
        let tokens = self.iter();
        let mut out: Vec<&'static str> = Vec::new();
        let mut i: usize = 0;
        while i < tokens.len()
            invariant
                tokens@ == self.iter_spec(),
                i <= tokens@.len(),
                out@.len() == i,
                forall|k: int| 0 <= k < i ==> (#[trigger] out@[k])@ == tokens@[k].spec_str(),
            decreases tokens@.len() - i,
        {
            out.push(tokens[i].to_str());
            i = i + 1;
        }
        out
    }

    /// The tokens of the set, in the order of `SpecialToken::all`.
    pub open spec fn iter_spec(&self) -> Seq<SpecialToken> {
        present(self@, SpecialToken::EndOfText) + present(self@, SpecialToken::FimPrefix) + present(
            self@,
            SpecialToken::FimMiddle,
        ) + present(self@, SpecialToken::FimSuffix) + present(self@, SpecialToken::EndOfPrompt)
    }
}

/// The encodings, each with its own vocabulary, special tokens and split
/// pattern.
#[non_exhaustive]
#[derive(Debug, Clone, Copy, PartialEq, Eq, Hash, Structural)]
pub enum Tokenizer {
    /// For GPT-3 models like `davinci`.
    R50KBase,
    /// For code models, `text-davinci-002` and `text-davinci-003`.
    P50KBase,
    /// For edit models like `text-davinci-edit-001`.
    P50KEdit,
    /// For chat models and `text-embedding-ada-002`.
    CL100KBase,
}

impl Default for Tokenizer {
    fn default() -> (r: Tokenizer)
        ensures
            r == Tokenizer::CL100KBase,
    {
        Tokenizer::CL100KBase
    }
}

impl Tokenizer {
    pub open spec fn spec_str(self) -> Seq<char> {
        match self {
            Tokenizer::R50KBase => "r50k_base"@,
            Tokenizer::P50KBase => "p50k_base"@,
            Tokenizer::P50KEdit => "p50k_edit"@,
            Tokenizer::CL100KBase => "cl100k_base"@,
        }
    }

    /// The encoding's name.
    pub fn to_str(&self) -> (r: &'static str)
        ensures
            r@ == self.spec_str(),
    {
        match self {
            Tokenizer::R50KBase => "r50k_base",
            Tokenizer::P50KBase => "p50k_base",
            Tokenizer::P50KEdit => "p50k_edit",
            Tokenizer::CL100KBase => "cl100k_base",
        }
    }

    /// The encoding with the name `name`, if it is one of these.
    pub fn from_encoding_name(name: &str) -> (r: Option<Tokenizer>)
        ensures
            r matches Some(t) ==> t.spec_str() == name@,
            r is None ==> forall|t: Tokenizer| #[trigger] t.spec_str() != name@,
    {
        if crate::models::str_eq(name, "r50k_base") {
            Some(Tokenizer::R50KBase)
        } else if crate::models::str_eq(name, "p50k_base") {
            Some(Tokenizer::P50KBase)
        } else if crate::models::str_eq(name, "p50k_edit") {
            Some(Tokenizer::P50KEdit)
        } else if crate::models::str_eq(name, "cl100k_base") {
            Some(Tokenizer::CL100KBase)
        } else {
            proof {
                assert forall|t: Tokenizer| #[trigger] t.spec_str() != name@ by {
                    match t {
                        Tokenizer::R50KBase => {},
                        Tokenizer::P50KBase => {},
                        Tokenizer::P50KEdit => {},
                        Tokenizer::CL100KBase => {},
                    }
                }
            }
            None
        }
    }

    pub open spec fn spec_name(self) -> Seq<char> {
        match self {
            Tokenizer::R50KBase => "R50KBase"@,
            Tokenizer::P50KBase => "P50KBase"@,
            Tokenizer::P50KEdit => "P50KEdit"@,
            Tokenizer::CL100KBase => "CL100KBase"@,
        }
    }

    /// The name of the variant.
    pub fn name(&self) -> (r: &'static str)
        ensures
            r@ == self.spec_name(),
    {
        match self {
            Tokenizer::R50KBase => "R50KBase",
            Tokenizer::P50KBase => "P50KBase",
            Tokenizer::P50KEdit => "P50KEdit",
            Tokenizer::CL100KBase => "CL100KBase",
        }
    }

    /// The special tokens the encoding recognises: all of them for
    /// cl100k_base, all but the end-of-prompt token for p50k_edit, and the
    /// end-of-text token alone for the others.
    pub open spec fn recognized(self) -> Set<SpecialToken> {
        Set::new(|t: SpecialToken| self.recognizes(t))
    }

    pub open spec fn recognizes(self, t: SpecialToken) -> bool {
        match self {
            Tokenizer::CL100KBase => true,
            Tokenizer::P50KEdit => t != SpecialToken::EndOfPrompt,
            _ => t == SpecialToken::EndOfText,
        }
    }

    /// Whether the encoding recognises `t`.
    pub fn recognizes_token(&self, t: SpecialToken) -> (r: bool)
        ensures
            r == self.recognized().contains(t),
    {
        match self {
            Tokenizer::CL100KBase => true,
            Tokenizer::P50KEdit => t != SpecialToken::EndOfPrompt,
            _ => t == SpecialToken::EndOfText,
        }
    }

    /// The special tokens the encoding recognises.
    pub fn recognized_special(&self) -> (r: SpecialTokens)
        ensures
            r@ == self.recognized(),
    {
        let mut r = SpecialTokens::new();
        r.insert(SpecialToken::EndOfText);
        match self {
            Tokenizer::CL100KBase => {
                r.insert(SpecialToken::FimPrefix);
                r.insert(SpecialToken::FimMiddle);
                r.insert(SpecialToken::FimSuffix);
                r.insert(SpecialToken::EndOfPrompt);
            },
            Tokenizer::P50KEdit => {
                r.insert(SpecialToken::FimPrefix);
                r.insert(SpecialToken::FimMiddle);
                r.insert(SpecialToken::FimSuffix);
            },
            _ => {},
        }
        assert(r@ =~= self.recognized());
        r
    }

    /// The recognised special tokens with their ids, in the order of
    /// `SpecialToken::all`.
    pub open spec fn special_ids(self) -> Seq<(SpecialToken, usize)> {
        match self {
            Tokenizer::R50KBase => seq![(SpecialToken::EndOfText, 50256usize)],
            Tokenizer::P50KBase => seq![(SpecialToken::EndOfText, 50256usize)],
            Tokenizer::P50KEdit => seq![
                (SpecialToken::EndOfText, 50256usize),
                (SpecialToken::FimPrefix, 50281usize),
                (SpecialToken::FimMiddle, 50282usize),
                (SpecialToken::FimSuffix, 50283usize),
            ],
            Tokenizer::CL100KBase => seq![
                (SpecialToken::EndOfText, 100257usize),
                (SpecialToken::FimPrefix, 100258usize),
                (SpecialToken::FimMiddle, 100259usize),
                (SpecialToken::FimSuffix, 100260usize),
                (SpecialToken::EndOfPrompt, 100276usize),
            ],
        }
    }

    /// The special tokens of the encoding as bytes and ids.
    pub open spec fn special_table(self) -> Seq<(Seq<u8>, usize)> {
        self.special_ids().map_values(|p: (SpecialToken, usize)| (encode_utf8(p.0.spec_str()), p.1))
    }

    pub open spec fn pattern(self) -> Seq<char> {
        match self {
            Tokenizer::CL100KBase => CL100K_PATTERN@,
            _ => P50K_PATTERN@,
        }
    }

    /// The split pattern of the encoding.
    pub fn pattern_str(&self) -> (r: &'static str)
        ensures
            r@ == self.pattern(),
    {
        match self {
            Tokenizer::CL100KBase => CL100K_PATTERN,
            _ => P50K_PATTERN,
        }
    }

    /// The recognised special tokens with their ids.
    pub fn special_id_list(&self) -> (r: Vec<(SpecialToken, usize)>)
        ensures
            r@ == self.special_ids(),
    {
        match self {
            Tokenizer::R50KBase => vec![(SpecialToken::EndOfText, 50256)],
            Tokenizer::P50KBase => vec![(SpecialToken::EndOfText, 50256)],
            Tokenizer::P50KEdit => vec![
                (SpecialToken::EndOfText, 50256),
                (SpecialToken::FimPrefix, 50281),
                (SpecialToken::FimMiddle, 50282),
                (SpecialToken::FimSuffix, 50283),
            ],
            Tokenizer::CL100KBase => vec![
                (SpecialToken::EndOfText, 100257),
                (SpecialToken::FimPrefix, 100258),
                (SpecialToken::FimMiddle, 100259),
                (SpecialToken::FimSuffix, 100260),
                (SpecialToken::EndOfPrompt, 100276),
            ],
        }
    }

    /// The special tokens of the encoding as texts and ids.
    pub fn special_entries(&self) -> (r: Vec<(String, usize)>)
        ensures
            special_views(r@) == self.special_table(),
    {
        let ids = self.special_id_list();
        let mut out: Vec<(String, usize)> = Vec::new();
        let mut i: usize = 0;
        while i < ids.len()
            invariant
                ids@ == self.special_ids(),
                i <= ids@.len(),
                special_views(out@) =~= self.special_table().subrange(0, i as int),
            decreases ids@.len() - i,
        {
            let (t, id) = ids[i];
            let name = t.to_string();
            assert(ids@[i as int] == (t, id));
            assert(self.special_table()[i as int] == (encode_utf8(name@), id));
            let ghost before = out@;
            out.push((name, id));
            assert(special_views(out@) =~= special_views(before).push((encode_utf8(name@), id)));
            i = i + 1;
            assert(special_views(out@) =~= self.special_table().subrange(0, i as int));
        }
        out
    }
}

/// Which of the encoding's special tokens `allowed` holds.
pub open spec fn mask_for(tokenizer: Tokenizer, allowed: Set<SpecialToken>) -> Seq<bool> {
    tokenizer.special_ids().map_values(|p: (SpecialToken, usize)| allowed.contains(p.0))
}

/// Checks that every requested special token is recognised by the encoding;
/// otherwise names one that is not.
#[verifier::rlimit(30)]
pub fn validate_special(tokenizer: Tokenizer, requested: &SpecialTokens) -> (r: Result<(), SpecialToken>)
    ensures
        r is Ok <==> requested@.subset_of(tokenizer.recognized()),
        r matches Err(t) ==> requested@.contains(t) && !tokenizer.recognized().contains(t),
{
    let tokens = requested.iter();
    let mut i: usize = 0;
    while i < tokens.len()
        invariant
            tokens@ == requested.iter_spec(),
            i <= tokens@.len(),
            forall|k: int| 0 <= k < i ==> tokenizer.recognizes(#[trigger] tokens@[k]),
        decreases tokens@.len() - i,
    {
        if !tokenizer.recognizes_token(tokens[i]) {
            proof {
                requested.lemma_iter();
            }
            return Err(tokens[i]);
        }
        i = i + 1;
    }
    proof {
        requested.lemma_iter();
        assert forall|t: SpecialToken| requested@.contains(t) implies tokenizer.recognized().contains(t) by {
            let k = choose|k: int| 0 <= k < tokens@.len() && tokens@[k] == t;
            assert(tokenizer.recognizes(tokens@[k]));
        }
    }
    Ok(())
}

impl SpecialTokens {
    /// `iter_spec` lists exactly the members of the set.
    pub proof fn lemma_iter(&self)
        ensures
            forall|t: SpecialToken| #[trigger] self@.contains(t) <==> exists|k: int| 0 <= k < self.iter_spec().len() && self.iter_spec()[k] == t,
    {
        assert forall|t: SpecialToken| #[trigger] self@.contains(t) <==> exists|k: int| 0 <= k < self.iter_spec().len() && self.iter_spec()[k] == t by {
            let a = present(self@, SpecialToken::EndOfText);
            let b = present(self@, SpecialToken::FimPrefix);
            let c = present(self@, SpecialToken::FimMiddle);
            let d = present(self@, SpecialToken::FimSuffix);
            let e = present(self@, SpecialToken::EndOfPrompt);
            let it = self.iter_spec();
            assert(it == a + b + c + d + e);
            if self@.contains(t) {
                let k = match t {
                    SpecialToken::EndOfText => 0,
                    SpecialToken::FimPrefix => a.len() as int,
                    SpecialToken::FimMiddle => (a.len() + b.len()) as int,
                    SpecialToken::FimSuffix => (a.len() + b.len() + c.len()) as int,
                    SpecialToken::EndOfPrompt => (a.len() + b.len() + c.len() + d.len()) as int,
                };
                assert(it[k] == t);
            }
            if exists|k: int| 0 <= k < it.len() && it[k] == t {
                let k = choose|k: int| 0 <= k < it.len() && it[k] == t;
                assert(self@.contains(it[k]));
            }
        }
    }
}

} // verus!
