//! The bot's identity as the server assigned it: its name and the channel it
//! joined. It starts empty and is written once the server accepts the
//! connection; runners share it between tasks behind a read/write lock.
use vstd::prelude::*;

verus! {

/// The bot's assigned name and main channel.
#[derive(Debug)]
pub struct BOTInfo {
    name: String,
    main_channel: String,
}

impl BOTInfo {
    pub closed spec fn spec_name(&self) -> Seq<char> {
        self.name@
    }

    pub closed spec fn spec_main_channel(&self) -> Seq<char> {
        self.main_channel@
    }

    /// An identity not yet set: both parts empty.
    pub fn new() -> (r: Self)
        ensures
            r.spec_name().len() == 0,
            r.spec_main_channel().len() == 0,
    {
        BOTInfo { name: String::new(), main_channel: String::new() }
    }

    /// Records the name the server assigned.
    pub fn set_name(&mut self, name: &str)
        ensures
            final(self).spec_name() == name@,
            final(self).spec_main_channel() == old(self).spec_main_channel(),
    {
        self.name = String::from_str(name);
    }

    /// Records the channel the bot joined.
    pub fn set_main_channel(&mut self, main_channel: &str)
        ensures
            final(self).spec_main_channel() == main_channel@,
            final(self).spec_name() == old(self).spec_name(),
    {
        self.main_channel = String::from_str(main_channel);
    }

    /// The name the server assigned; empty until it is set.
    pub fn get_name(&self) -> (r: String)
        ensures
            r@ == self.spec_name(),
    {
        self.name.clone()
    }

    /// The channel the bot joined; empty until it is set.
    pub fn get_main_channel(&self) -> (r: String)
        ensures
            r@ == self.spec_main_channel(),
    {
        self.main_channel.clone()
    }
}

} // verus!
