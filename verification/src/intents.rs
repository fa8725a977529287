//! Gateway intents: named bits that select which categories of events the
//! bot asks Discord to deliver. An intent set is sent as a 16-bit mask in
//! the identify payload.

use vstd::prelude::*;

verus! {

/// A gateway intent, one of the fifteen named bits (bits 0 through 14).
#[derive(Clone, Copy, Debug, PartialEq, Eq, Structural)]
pub enum Intent {
    Guilds,
    GuildMembers,
    GuildBans,
    GuildEmojis,
    GuildIntegrations,
    GuildWebhooks,
    GuildInvites,
    GuildVoiceStates,
    GuildPresences,
    GuildMessages,
    GuildMessageReactions,
    GuildMessageTyping,
    DirectMessages,
    DirectMessageReactions,
    DirectMessageTyping,
}

/// The bit each intent occupies in the 16-bit mask.
pub open spec fn spec_bit_of(i: Intent) -> u16 {
    match i {
        Intent::Guilds => 1u16,
        Intent::GuildMembers => 2u16,
        Intent::GuildBans => 4u16,
        Intent::GuildEmojis => 8u16,
        Intent::GuildIntegrations => 16u16,
        Intent::GuildWebhooks => 32u16,
        Intent::GuildInvites => 64u16,
        Intent::GuildVoiceStates => 128u16,
        Intent::GuildPresences => 256u16,
        Intent::GuildMessages => 512u16,
        Intent::GuildMessageReactions => 1024u16,
        Intent::GuildMessageTyping => 2048u16,
        Intent::DirectMessages => 4096u16,
        Intent::DirectMessageReactions => 8192u16,
        Intent::DirectMessageTyping => 16384u16,
    }
}

/// The mask assembled from a sequence of intents, in order.
pub open spec fn spec_mask_of(s: Seq<Intent>) -> u16
    decreases s.len(),
{
    if s.len() == 0 {
        0u16
    } else {
        spec_mask_of(s.drop_last()) | spec_bit_of(s.last())
    }
}

impl Intent {
    /// Every named bit set: the fifteen bits 0 through 14.
    pub const ALL: u16 = 0x7fff;

    /// The bits Discord gates behind explicit approval: presences and
    /// members.
    pub const PRIVILEGED: u16 = 256 | 2;

    /// Every named bit that needs no approval.
    pub const UNPRIVILEGED: u16 = 0x7fff ^ (256 | 2);

    /// The bit this intent occupies in the mask.
    pub fn bit(self) -> (r: u16)
        ensures
            r == spec_bit_of(self),
    {
        match self {
            Intent::Guilds => 1u16,
            Intent::GuildMembers => 2u16,
            Intent::GuildBans => 4u16,
            Intent::GuildEmojis => 8u16,
            Intent::GuildIntegrations => 16u16,
            Intent::GuildWebhooks => 32u16,
            Intent::GuildInvites => 64u16,
            Intent::GuildVoiceStates => 128u16,
            Intent::GuildPresences => 256u16,
            Intent::GuildMessages => 512u16,
            Intent::GuildMessageReactions => 1024u16,
            Intent::GuildMessageTyping => 2048u16,
            Intent::DirectMessages => 4096u16,
            Intent::DirectMessageReactions => 8192u16,
            Intent::DirectMessageTyping => 16384u16,
        }
    }

    /// The mask with the bit of every listed intent set.
    pub fn bit_mask_of(intents: &Vec<Intent>) -> (r: u16)
        ensures
            r == spec_mask_of(intents@),
    {
        let mut acc: u16 = 0;
        let mut i: usize = 0;
        while i < intents.len()
            invariant
                i <= intents.len(),
                acc == spec_mask_of(intents@.take(i as int)),
            decreases intents.len() - i,
        {
            proof {
                assert(intents@.take(i + 1 as int).drop_last() =~= intents@.take(i as int));
            }
            acc = acc | intents[i].bit();
            i = i + 1;
        }
        proof {
            assert(intents@.take(intents@.len() as int) =~= intents@);
        }
        acc
    }
}

impl From<Intent> for u16 {
    fn from(i: Intent) -> (r: u16) {
        i.bit()
    }
}

impl vstd::std_specs::convert::FromSpecImpl<Intent> for u16 {
    open spec fn obeys_from_spec() -> bool {
        true
    }

    open spec fn from_spec(i: Intent) -> u16 {
        spec_bit_of(i)
    }
}

} // verus!
