//! The pending system-clipboard read: a read is requested on one thread, the
//! platform answers on another, and the UI polls for the answer each frame.

use vstd::prelude::*;

verus! {

/// The one clipboard read in flight.
///
/// Pending (or nothing requested), or the answer: the text read, or `None`
/// when the read failed or the clipboard held no text. An empty text is
/// never handed out.
pub struct PendingRead {
    slot: Option<Option<String>>,
}

impl PendingRead {
    /// A text waiting to be handed out is never empty.
    #[verifier::type_invariant]
    spec fn no_empty_text(self) -> bool {
        self.slot matches Some(Some(s)) ==> s@.len() > 0
    }

    /// `None` while pending (or when nothing was requested); otherwise the
    /// answer waiting to be handed out.
    pub closed spec fn pending(self) -> Option<Option<String>> {
        self.slot
    }

    /// No read requested yet.
    pub fn new() -> (r: Self)
        ensures
            r.pending() is None,
    {
        PendingRead { slot: None }
    }

    /// Kick off a read. Without a platform handle (`installed` false) the
    /// read fails at once; otherwise the answer is pending.
    pub fn request(&mut self, installed: bool)
        ensures
            installed ==> final(self).pending() is None,
            !installed ==> final(self).pending() == Some(None::<String>),
    {
        if installed {
            self.slot = None;
        } else {
            self.slot = Some(None);
        }
    }

    /// The platform's answer arrived: the text, or `None` when the read
    /// failed. An empty text counts as no text.
    pub fn complete(&mut self, text: Option<String>)
        ensures
            final(self).pending() == Some(
                match text {
                    Some(s) => if s@.len() == 0 {
                        None
                    } else {
                        Some(s)
                    },
                    None => None,
                },
            ),
    {
        let answer = match text {
            Some(s) => if s.as_str().is_empty() {
                None
            } else {
                Some(s)
            },
            None => None,
        };
        self.slot = Some(answer);
    }

    /// Take the answer, if there is one; the slot is then empty again. A
    /// text handed out is never empty.
    pub fn poll(&mut self) -> (r: Option<Option<String>>)
        ensures
            r == old(self).pending(),
            final(self).pending() is None,
            r matches Some(Some(s)) ==> s@.len() > 0,
    {
        let mut taken = PendingRead { slot: None };
        std::mem::swap(&mut taken, self);
        proof {
            use_type_invariant(&taken);
        }
        taken.slot
    }
}

} // verus!
