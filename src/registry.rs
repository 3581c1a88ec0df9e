//! A registry that builds each bundled encoding at most once and then keeps
//! it. Sharing a registry between threads is left to its owner (a lock
//! around it).
use crate::core_bpe::CoreBpe;
use crate::engine::{encode_from, ordinary_tokens};
use crate::error::OairsError;
use crate::tokenize::load_bpe;
use crate::bundled::{bundled_loads, bundled_model};
use crate::tokenizer::Tokenizer;
use vstd::prelude::*;
use vstd::string::StringSliceAdditionalSpecFns;

verus! {

/// One slot per bundled encoding; a slot is filled on first use.
pub struct EncodingRegistry {
    r50k_base: Option<CoreBpe>,
    p50k_base: Option<CoreBpe>,
    p50k_edit: Option<CoreBpe>,
    cl100k_base: Option<CoreBpe>,
}

impl EncodingRegistry {
    /// The slot of an encoding.
    pub closed spec fn slot(&self, t: Tokenizer) -> Option<CoreBpe> {
        match t {
            Tokenizer::R50KBase => self.r50k_base,
            Tokenizer::P50KBase => self.p50k_base,
            Tokenizer::P50KEdit => self.p50k_edit,
            Tokenizer::CL100KBase => self.cl100k_base,
        }
    }

    /// Every filled slot holds a consistent engine of its own encoding.
    pub closed spec fn wf(&self) -> bool {
        forall|t: Tokenizer|
            #[trigger] self.slot(t) is Some ==> self.slot(t)->0.wf() && self.slot(t)->0@ == bundled_model(t)
                && bundled_loads(t)
    }

    /// A registry with no encoding built yet.
    pub fn new() -> (r: EncodingRegistry)
        ensures
            r.wf(),
            forall|t: Tokenizer| #[trigger] r.slot(t) is None,
    {
        EncodingRegistry { r50k_base: None, p50k_base: None, p50k_edit: None, cl100k_base: None }
    }

    fn slot_ref(&self, t: Tokenizer) -> (r: &Option<CoreBpe>)
        ensures
            *r == self.slot(t),
    {
        match t {
            Tokenizer::R50KBase => &self.r50k_base,
            Tokenizer::P50KBase => &self.p50k_base,
            Tokenizer::P50KEdit => &self.p50k_edit,
            Tokenizer::CL100KBase => &self.cl100k_base,
        }
    }

    fn fill(&mut self, t: Tokenizer, b: CoreBpe)
        ensures
            final(self).slot(t) == Some(b),
            forall|u: Tokenizer| u != t ==> #[trigger] final(self).slot(u) == old(self).slot(u),
    {
        match t {
            Tokenizer::R50KBase => self.r50k_base = Some(b),
            Tokenizer::P50KBase => self.p50k_base = Some(b),
            Tokenizer::P50KEdit => self.p50k_edit = Some(b),
            Tokenizer::CL100KBase => self.cl100k_base = Some(b),
        }
    }

    /// Builds the engine of `t` unless it is already built. A built engine
    /// is never built again nor replaced, and the other slots are untouched.
    pub fn ensure_loaded(&mut self, t: Tokenizer) -> (r: Result<(), OairsError>)
        requires
            old(self).wf(),
        ensures
            final(self).wf(),
            r is Ok <==> bundled_loads(t),
            old(self).slot(t) is Some ==> r is Ok && *final(self) == *old(self),
            r is Ok ==> final(self).slot(t) is Some,
            r is Err ==> *final(self) == *old(self),
            forall|u: Tokenizer| u != t ==> #[trigger] final(self).slot(u) == old(self).slot(u),
    {
        if self.slot_ref(t).is_some() {
            return Ok(());
        }
        let b = load_bpe(t)?;
        self.fill(t, b);
        assert forall|u: Tokenizer| #[trigger] self.slot(u) is Some implies self.slot(u)->0.wf()
            && self.slot(u)->0@ == bundled_model(u) && bundled_loads(u) by {
            if u != t {
                assert(old(self).slot(u) == self.slot(u));
            }
        }
        Ok(())
    }

    /// Encodes `text` as ordinary text with the encoding `t`, building the
    /// encoding first if needed.
    pub fn encode_ordinary(&mut self, t: Tokenizer, text: &str) -> (r: Result<Vec<usize>, OairsError>)
        requires
            old(self).wf(),
        ensures
            final(self).wf(),
            r is Ok <==> bundled_loads(t),
            r matches Ok(tokens) ==> tokens@ == ordinary_tokens(bundled_model(t), text.spec_bytes()),
            old(self).slot(t) is Some ==> *final(self) == *old(self) && r is Ok,
    {
        self.ensure_loaded(t)?;
        match self.slot_ref(t) {
            Some(b) => Ok(b.encode_ordinary(text)),
            None => {
                // ensure_loaded has filled the slot
                proof {
                    assert(false);
                }
                Ok(Vec::new())
            },
        }
    }

    /// Encodes `text` with every special token of the encoding `t`
    /// recognised, building the encoding first if needed.
    pub fn encode_with_special_tokens(&mut self, t: Tokenizer, text: &str) -> (r: Result<Vec<usize>, OairsError>)
        requires
            old(self).wf(),
        ensures
            final(self).wf(),
            r is Ok <==> bundled_loads(t),
            r matches Ok(tokens) ==> tokens@ == encode_from(
                bundled_model(t),
                text.spec_bytes(),
                0,
                Seq::new(bundled_model(t).specials.len(), |j: int| true),
            ),
            old(self).slot(t) is Some ==> *final(self) == *old(self) && r is Ok,
    {
        self.ensure_loaded(t)?;
        match self.slot_ref(t) {
            Some(b) => Ok(b.encode_with_special_tokens(text)),
            None => {
                // ensure_loaded has filled the slot
                proof {
                    assert(false);
                }
                Ok(Vec::new())
            },
        }
    }
}

} // verus!
