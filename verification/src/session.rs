//! Send-side session state: the bootstrap ordering contract (exactly one
//! self-announcement, before any self-authored chat line) and the framing of
//! outbound broadcasts.

use vstd::prelude::*;

use crate::message::Message;
use crate::message::MessageBody;
use crate::message::wire_of;
use crate::peer::PeerId;
use crate::peer::copy_bytes;

verus! {

/// One participant's send side for one topic subscription.
pub struct Session {
    /// This process's own peer identifier.
    pub me: PeerId,
    /// The authenticated user's display name.
    pub name: String,
    /// Whether the self-announcement has been broadcast.
    pub announced: bool,
}

impl Session {
    pub open spec fn wf(&self) -> bool {
        self.me.wf()
    }

    /// A fresh session: nothing announced yet.
    pub fn new(me: PeerId, name: String) -> (r: Session)
        requires
            me.wf(),
        ensures
            r.wf(),
            r.me == me,
            r.name == name,
            !r.announced,
    {
        Session { me, name, announced: false }
    }

    /// The one self-announcement frame; must be broadcast before any chat
    /// frame from this session, and can be produced only once.
    pub fn announce_frame(&mut self) -> (r: Vec<u8>)
        requires
            old(self).wf(),
            !old(self).announced,
        ensures
            final(self).wf(),
            final(self).me == old(self).me,
            final(self).name == old(self).name,
            final(self).announced,
            r@ == wire_of(
                MessageBody::AboutMe { from: old(self).me, name: old(self).name },
            ),
    {
        let from = PeerId::new(copy_bytes(&self.me.bytes));
        let name = self.name.clone();
        let msg = Message::new(MessageBody::AboutMe { from, name });
        self.announced = true;
        msg.to_vec()
    }

    /// Frame one outbound chat line; only after the self-announcement.
    pub fn chat_frame(&self, text: String) -> (r: Vec<u8>)
        requires
            self.wf(),
            self.announced,
        ensures
            r@ == wire_of(MessageBody::Message { from: self.me, text }),
    {
        let from = PeerId::new(copy_bytes(&self.me.bytes));
        let msg = Message::new(MessageBody::Message { from, text });
        msg.to_vec()
    }
}

} // verus!
