//! The `sub_type` field shared by OneBot events, and its wire names.
use vstd::prelude::*;
use crate::text::str_eq;

verus! {

/// The sub-type of a meta event, message or notice.
#[derive(Debug, Clone, Copy, PartialEq, Eq, Structural)]
pub enum SubType {
    /// Lifecycle: the connection was enabled.
    Enable,
    /// Lifecycle: the connection was disabled.
    Disable,
    /// Lifecycle: the connection was made.
    Connect,
    /// Message: a private message from a friend.
    Friend,
    /// Message: a temporary session started from a group.
    GroupTemp,
    /// Message: sent by the bot itself in a group.
    GroupSelf,
    /// Message: from another source.
    Other,
    /// Message: an ordinary group message.
    Normal,
    /// Message: an anonymous group message.
    Anonymous,
    /// Message: a system notice in a group.
    Notice,
    /// Notice: an administrator was set.
    SetAdmin,
    /// Notice: an administrator was removed.
    Unset,
    /// Notice: a member was muted.
    Ban,
    /// Notice: a mute was lifted.
    LiftBan,
    /// Notice: a mute was lifted (alternative name).
    Unban,
    /// Notice: a member left.
    Leave,
    /// Notice: a member was kicked.
    Kick,
    /// Notice: the bot was kicked.
    KickMe,
    /// Notice: a join or request was approved.
    Approve,
    /// Notice: someone was invited.
    Invite,
    /// Notice: someone joined or was added.
    Add,
    /// Notice: a poke.
    Poke,
    /// Notice: the luckiest red-packet draw.
    LuckyKing,
    /// Notice: the most talkative member honour.
    Talkative,
    /// Notice: the performer honour.
    Performer,
    /// Notice: the source-of-joy honour.
    Emotion,
    /// Notice: the peer's typing status.
    InputStatus,
    /// Notice: a member's title changed.
    Title,
    /// Notice: the profile was liked.
    ProfileLike,
    /// Notice: a group honour changed.
    Honor,
    /// No sub-type, or one not known here.
    Unknown,
}

/// The wire name of a sub-type.
pub open spec fn sub_type_name(t: SubType) -> Seq<char> {
    match t {
        SubType::Enable => "enable"@,
        SubType::Disable => "disable"@,
        SubType::Connect => "connect"@,
        SubType::Friend => "friend"@,
        SubType::GroupTemp => "group"@,
        SubType::GroupSelf => "group_self"@,
        SubType::Other => "other"@,
        SubType::Normal => "normal"@,
        SubType::Anonymous => "anonymous"@,
        SubType::Notice => "notice"@,
        SubType::SetAdmin => "set"@,
        SubType::Unset => "unset"@,
        SubType::Ban => "ban"@,
        SubType::LiftBan => "lift_ban"@,
        SubType::Unban => "unban"@,
        SubType::Leave => "leave"@,
        SubType::Kick => "kick"@,
        SubType::KickMe => "kick_me"@,
        SubType::Approve => "approve"@,
        SubType::Invite => "invite"@,
        SubType::Add => "add"@,
        SubType::Poke => "poke"@,
        SubType::LuckyKing => "lucky_king"@,
        SubType::Talkative => "talkative"@,
        SubType::Performer => "performer"@,
        SubType::Emotion => "emotion"@,
        SubType::InputStatus => "input_status"@,
        SubType::Title => "title"@,
        SubType::ProfileLike => "profile_like"@,
        SubType::Honor => "honor"@,
        SubType::Unknown => "none"@,
    }
}

/// The sub-type that a wire name stands for; any other text is `Unknown`.
pub open spec fn sub_type_of_name(s: Seq<char>) -> SubType {
    if s == "enable"@ {
        SubType::Enable
    }     else if s == "disable"@ {
        SubType::Disable
    }     else if s == "connect"@ {
        SubType::Connect
    }     else if s == "friend"@ {
        SubType::Friend
    }     else if s == "group"@ {
        SubType::GroupTemp
    }     else if s == "group_self"@ {
        SubType::GroupSelf
    }     else if s == "other"@ {
        SubType::Other
    }     else if s == "normal"@ {
        SubType::Normal
    }     else if s == "anonymous"@ {
        SubType::Anonymous
    }     else if s == "notice"@ {
        SubType::Notice
    }     else if s == "set"@ {
        SubType::SetAdmin
    }     else if s == "unset"@ {
        SubType::Unset
    }     else if s == "ban"@ {
        SubType::Ban
    }     else if s == "lift_ban"@ {
        SubType::LiftBan
    }     else if s == "unban"@ {
        SubType::Unban
    }     else if s == "leave"@ {
        SubType::Leave
    }     else if s == "kick"@ {
        SubType::Kick
    }     else if s == "kick_me"@ {
        SubType::KickMe
    }     else if s == "approve"@ {
        SubType::Approve
    }     else if s == "invite"@ {
        SubType::Invite
    }     else if s == "add"@ {
        SubType::Add
    }     else if s == "poke"@ {
        SubType::Poke
    }     else if s == "lucky_king"@ {
        SubType::LuckyKing
    }     else if s == "talkative"@ {
        SubType::Talkative
    }     else if s == "performer"@ {
        SubType::Performer
    }     else if s == "emotion"@ {
        SubType::Emotion
    }     else if s == "input_status"@ {
        SubType::InputStatus
    }     else if s == "title"@ {
        SubType::Title
    }     else if s == "profile_like"@ {
        SubType::ProfileLike
    }     else if s == "honor"@ {
        SubType::Honor
    } else {
        SubType::Unknown
    }
}

impl SubType {
    /// The wire name (what serialising the sub-type writes).
    pub fn name(&self) -> (r: &'static str)
        ensures
            r@ == sub_type_name(*self),
    {
        match self {
            SubType::Enable => "enable",
            SubType::Disable => "disable",
            SubType::Connect => "connect",
            SubType::Friend => "friend",
            SubType::GroupTemp => "group",
            SubType::GroupSelf => "group_self",
            SubType::Other => "other",
            SubType::Normal => "normal",
            SubType::Anonymous => "anonymous",
            SubType::Notice => "notice",
            SubType::SetAdmin => "set",
            SubType::Unset => "unset",
            SubType::Ban => "ban",
            SubType::LiftBan => "lift_ban",
            SubType::Unban => "unban",
            SubType::Leave => "leave",
            SubType::Kick => "kick",
            SubType::KickMe => "kick_me",
            SubType::Approve => "approve",
            SubType::Invite => "invite",
            SubType::Add => "add",
            SubType::Poke => "poke",
            SubType::LuckyKing => "lucky_king",
            SubType::Talkative => "talkative",
            SubType::Performer => "performer",
            SubType::Emotion => "emotion",
            SubType::InputStatus => "input_status",
            SubType::Title => "title",
            SubType::ProfileLike => "profile_like",
            SubType::Honor => "honor",
            SubType::Unknown => "none",
        }
    }

    /// The sub-type named by `s` (what deserialising a string gives); an
    /// unknown name gives `Unknown`.
    pub fn from_name(s: &str) -> (r: SubType)
        ensures
            r == sub_type_of_name(s@),
    {
        if str_eq(s, "enable") {
            SubType::Enable
        } else if str_eq(s, "disable") {
            SubType::Disable
        } else if str_eq(s, "connect") {
            SubType::Connect
        } else if str_eq(s, "friend") {
            SubType::Friend
        } else if str_eq(s, "group") {
            SubType::GroupTemp
        } else if str_eq(s, "group_self") {
            SubType::GroupSelf
        } else if str_eq(s, "other") {
            SubType::Other
        } else if str_eq(s, "normal") {
            SubType::Normal
        } else if str_eq(s, "anonymous") {
            SubType::Anonymous
        } else if str_eq(s, "notice") {
            SubType::Notice
        } else if str_eq(s, "set") {
            SubType::SetAdmin
        } else if str_eq(s, "unset") {
            SubType::Unset
        } else if str_eq(s, "ban") {
            SubType::Ban
        } else if str_eq(s, "lift_ban") {
            SubType::LiftBan
        } else if str_eq(s, "unban") {
            SubType::Unban
        } else if str_eq(s, "leave") {
            SubType::Leave
        } else if str_eq(s, "kick") {
            SubType::Kick
        } else if str_eq(s, "kick_me") {
            SubType::KickMe
        } else if str_eq(s, "approve") {
            SubType::Approve
        } else if str_eq(s, "invite") {
            SubType::Invite
        } else if str_eq(s, "add") {
            SubType::Add
        } else if str_eq(s, "poke") {
            SubType::Poke
        } else if str_eq(s, "lucky_king") {
            SubType::LuckyKing
        } else if str_eq(s, "talkative") {
            SubType::Talkative
        } else if str_eq(s, "performer") {
            SubType::Performer
        } else if str_eq(s, "emotion") {
            SubType::Emotion
        } else if str_eq(s, "input_status") {
            SubType::InputStatus
        } else if str_eq(s, "title") {
            SubType::Title
        } else if str_eq(s, "profile_like") {
            SubType::ProfileLike
        } else if str_eq(s, "honor") {
            SubType::Honor
        } else {
            SubType::Unknown
        }
    }
}

/// Reading back the name of any sub-type gives that sub-type.
pub proof fn law_sub_type_name_round_trip(t: SubType)
    ensures
        sub_type_of_name(sub_type_name(t)) == t,
{
    reveal_strlit("enable");
    reveal_strlit("disable");
    reveal_strlit("connect");
    reveal_strlit("friend");
    reveal_strlit("group");
    reveal_strlit("group_self");
    reveal_strlit("other");
    reveal_strlit("normal");
    reveal_strlit("anonymous");
    reveal_strlit("notice");
    reveal_strlit("set");
    reveal_strlit("unset");
    reveal_strlit("ban");
    reveal_strlit("lift_ban");
    reveal_strlit("unban");
    reveal_strlit("leave");
    reveal_strlit("kick");
    reveal_strlit("kick_me");
    reveal_strlit("approve");
    reveal_strlit("invite");
    reveal_strlit("add");
    reveal_strlit("poke");
    reveal_strlit("lucky_king");
    reveal_strlit("talkative");
    reveal_strlit("performer");
    reveal_strlit("emotion");
    reveal_strlit("input_status");
    reveal_strlit("title");
    reveal_strlit("profile_like");
    reveal_strlit("honor");
    reveal_strlit("none");
    let s = sub_type_name(t);
    assert(s.len() > 0);
    match t {
        SubType::Enable => {
            assert(s =~= "enable"@);
        },
        SubType::Disable => {
            assert(s =~= "disable"@);
        },
        SubType::Connect => {
            assert(s =~= "connect"@);
            assert(s[0] == 'c' && "disable"@[0] == 'd');
        },
        SubType::Friend => {
            assert(s =~= "friend"@);
            assert(s[0] == 'f' && "enable"@[0] == 'e');
        },
        SubType::GroupTemp => {
            assert(s =~= "group"@);
        },
        SubType::GroupSelf => {
            assert(s =~= "group_self"@);
        },
        SubType::Other => {
            assert(s =~= "other"@);
            assert(s[0] == 'o' && "group"@[0] == 'g');
        },
        SubType::Normal => {
            assert(s =~= "normal"@);
            assert(s[0] == 'n' && "enable"@[0] == 'e');
            assert(s[0] == 'n' && "friend"@[0] == 'f');
        },
        SubType::Anonymous => {
            assert(s =~= "anonymous"@);
        },
        SubType::Notice => {
            assert(s =~= "notice"@);
            assert(s[0] == 'n' && "enable"@[0] == 'e');
            assert(s[0] == 'n' && "friend"@[0] == 'f');
            assert(s[2] == 't' && "normal"@[2] == 'r');
        },
        SubType::SetAdmin => {
            assert(s =~= "set"@);
        },
        SubType::Unset => {
            assert(s =~= "unset"@);
            assert(s[0] == 'u' && "group"@[0] == 'g');
            assert(s[0] == 'u' && "other"@[0] == 'o');
        },
        SubType::Ban => {
            assert(s =~= "ban"@);
            assert(s[0] == 'b' && "set"@[0] == 's');
        },
        SubType::LiftBan => {
            assert(s =~= "lift_ban"@);
        },
        SubType::Unban => {
            assert(s =~= "unban"@);
            assert(s[0] == 'u' && "group"@[0] == 'g');
            assert(s[0] == 'u' && "other"@[0] == 'o');
            assert(s[2] == 'b' && "unset"@[2] == 's');
        },
        SubType::Leave => {
            assert(s =~= "leave"@);
            assert(s[0] == 'l' && "group"@[0] == 'g');
            assert(s[0] == 'l' && "other"@[0] == 'o');
            assert(s[0] == 'l' && "unset"@[0] == 'u');
            assert(s[0] == 'l' && "unban"@[0] == 'u');
        },
        SubType::Kick => {
            assert(s =~= "kick"@);
        },
        SubType::KickMe => {
            assert(s =~= "kick_me"@);
            assert(s[0] == 'k' && "disable"@[0] == 'd');
            assert(s[0] == 'k' && "connect"@[0] == 'c');
        },
        SubType::Approve => {
            assert(s =~= "approve"@);
            assert(s[0] == 'a' && "disable"@[0] == 'd');
            assert(s[0] == 'a' && "connect"@[0] == 'c');
            assert(s[0] == 'a' && "kick_me"@[0] == 'k');
        },
        SubType::Invite => {
            assert(s =~= "invite"@);
            assert(s[0] == 'i' && "enable"@[0] == 'e');
            assert(s[0] == 'i' && "friend"@[0] == 'f');
            assert(s[0] == 'i' && "normal"@[0] == 'n');
            assert(s[0] == 'i' && "notice"@[0] == 'n');
        },
        SubType::Add => {
            assert(s =~= "add"@);
            assert(s[0] == 'a' && "set"@[0] == 's');
            assert(s[0] == 'a' && "ban"@[0] == 'b');
        },
        SubType::Poke => {
            assert(s =~= "poke"@);
            assert(s[0] == 'p' && "kick"@[0] == 'k');
        },
        SubType::LuckyKing => {
            assert(s =~= "lucky_king"@);
            assert(s[0] == 'l' && "group_self"@[0] == 'g');
        },
        SubType::Talkative => {
            assert(s =~= "talkative"@);
            assert(s[0] == 't' && "anonymous"@[0] == 'a');
        },
        SubType::Performer => {
            assert(s =~= "performer"@);
            assert(s[0] == 'p' && "anonymous"@[0] == 'a');
            assert(s[0] == 'p' && "talkative"@[0] == 't');
        },
        SubType::Emotion => {
            assert(s =~= "emotion"@);
            assert(s[0] == 'e' && "disable"@[0] == 'd');
            assert(s[0] == 'e' && "connect"@[0] == 'c');
            assert(s[0] == 'e' && "kick_me"@[0] == 'k');
            assert(s[0] == 'e' && "approve"@[0] == 'a');
        },
        SubType::InputStatus => {
            assert(s =~= "input_status"@);
        },
        SubType::Title => {
            assert(s =~= "title"@);
            assert(s[0] == 't' && "group"@[0] == 'g');
            assert(s[0] == 't' && "other"@[0] == 'o');
            assert(s[0] == 't' && "unset"@[0] == 'u');
            assert(s[0] == 't' && "unban"@[0] == 'u');
            assert(s[0] == 't' && "leave"@[0] == 'l');
        },
        SubType::ProfileLike => {
            assert(s =~= "profile_like"@);
            assert(s[0] == 'p' && "input_status"@[0] == 'i');
        },
        SubType::Honor => {
            assert(s =~= "honor"@);
            assert(s[0] == 'h' && "group"@[0] == 'g');
            assert(s[0] == 'h' && "other"@[0] == 'o');
            assert(s[0] == 'h' && "unset"@[0] == 'u');
            assert(s[0] == 'h' && "unban"@[0] == 'u');
            assert(s[0] == 'h' && "leave"@[0] == 'l');
            assert(s[0] == 'h' && "title"@[0] == 't');
        },
        SubType::Unknown => {
            assert(s =~= "none"@);
            assert(s[0] == 'n' && "kick"@[0] == 'k');
            assert(s[0] == 'n' && "poke"@[0] == 'p');
        },
    }
}

/// A name that is not one of the known ones reads as `Unknown`, and a known one
/// is written back unchanged.
pub proof fn law_sub_type_name_of_read(s: Seq<char>)
    ensures
        sub_type_of_name(s) != SubType::Unknown ==> sub_type_name(sub_type_of_name(s)) == s,
{
}

} // verus!
