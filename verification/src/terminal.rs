//! Keeping the terminal's original state, to restore it when the process exits.

use vstd::prelude::*;

verus! {

/// The state of the terminal before anything changed it. `A` holds terminal attributes.
#[derive(Debug)]
pub struct OriginalTerminal<A> {
    /// Set by the first attempt to save; holds nothing if there was nothing to save.
    saved: Option<Option<A>>,
}

impl<A> OriginalTerminal<A> {
    /// Whether there was an attempt to save.
    pub closed spec fn attempted(self) -> bool {
        self.saved is Some
    }

    /// The attributes to restore.
    pub closed spec fn attributes(self) -> Option<A> {
        match self.saved {
            Some(attributes) => attributes,
            None => None,
        }
    }

    #[must_use]
    pub fn new() -> (terminal: Self)
        ensures
            !terminal.attempted(),
            terminal.attributes() is None,
    {
        OriginalTerminal { saved: None }
    }

    /// Saves the attributes if this is the first attempt and there is a terminal whose attributes
    /// can be read. Returns whether the exit handler is to be registered. `is_terminal` is asked
    /// on the first attempt only, `read_attributes` if there is a terminal only.
    pub fn save_original_state<T: FnOnce() -> bool, R: FnOnce() -> Option<A>>(
        &mut self,
        is_terminal: T,
        read_attributes: R,
    ) -> (register: bool)
        requires
            is_terminal.requires(()),
            read_attributes.requires(()),
        ensures
            final(self).attempted(),
            old(self).attempted() ==> *final(self) == *old(self) && !register,
            !old(self).attempted() ==> {
                &&& register == final(self).attributes() is Some
                &&& {
                    ||| is_terminal.ensures((), false) && final(self).attributes() is None
                    ||| is_terminal.ensures((), true) && read_attributes.ensures(
                        (),
                        final(self).attributes(),
                    )
                }
            },
    {
        if self.saved.is_some() {
            return false;
        }
        let attributes = if is_terminal() {
            read_attributes()
        } else {
            None
        };
        let register = attributes.is_some();
        self.saved = Some(attributes);
        register
    }

    /// The attributes to restore when the process exits.
    #[must_use]
    pub fn to_restore(&self) -> (attributes: Option<&A>)
        ensures
            match attributes {
                Some(original) => self.attributes() == Some(*original),
                None => self.attributes() is None,
            },
    {
        match &self.saved {
            Some(Some(original)) => Some(original),
            _ => None,
        }
    }
}

} // verus!
