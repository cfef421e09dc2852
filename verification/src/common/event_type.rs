//! Event type discriminants of the ring-buffer wire contract.

use vstd::prelude::*;

verus! {

/// Discriminant for the type of event captured.
///
/// On the wire the discriminants are `Exec = 0`, `Read = 2`, `Write = 3`,
/// `Exit = 4`; value 1 is reserved and never decodes.
#[derive(Debug, Clone, Copy, PartialEq, Eq, Structural)]
pub enum EventType {
    Exec,
    /// A read syscall I/O event.
    Read,
    Write,
    Exit,
}

/// The wire discriminant of an event type.
pub open spec fn wire_of(t: EventType) -> u32 {
    match t {
        EventType::Exec => 0,
        EventType::Read => 2,
        EventType::Write => 3,
        EventType::Exit => 4,
    }
}

/// The event type a wire discriminant denotes, if any.
pub open spec fn type_of_wire(value: u32) -> Option<EventType> {
    if value == 0 {
        Some(EventType::Exec)
    } else if value == 2 {
        Some(EventType::Read)
    } else if value == 3 {
        Some(EventType::Write)
    } else if value == 4 {
        Some(EventType::Exit)
    } else {
        None
    }
}

/// The lowercase name of an event type.
pub open spec fn name_of(t: EventType) -> Seq<char> {
    match t {
        EventType::Exec => seq!['e', 'x', 'e', 'c'],
        EventType::Read => seq!['r', 'e', 'a', 'd'],
        EventType::Write => seq!['w', 'r', 'i', 't', 'e'],
        EventType::Exit => seq!['e', 'x', 'i', 't'],
    }
}

/// Error returned when parsing an unknown event type string.
#[derive(Debug, Clone, PartialEq, Eq)]
pub struct ParseEventTypeError {
    _private: bool,
}

impl ParseEventTypeError {
    /// The human-readable description of this error.
    pub fn message(&self) -> (s: String)
        ensures
            s@ == "unknown event type"@,
    {
        crate::text::owned("unknown event type")
    }
}

impl EventType {
    /// Decode an event type from the raw wire discriminant.
    pub fn from_wire(value: u32) -> (r: Option<Self>)
        ensures
            r == type_of_wire(value),
    {
        if value == 0 {
            Some(EventType::Exec)
        } else if value == 2 {
            Some(EventType::Read)
        } else if value == 3 {
            Some(EventType::Write)
        } else if value == 4 {
            Some(EventType::Exit)
        } else {
            None
        }
    }

    /// Encode the event type to the raw wire discriminant.
    pub fn as_wire(self) -> (r: u32)
        ensures
            r == wire_of(self),
    {
        match self {
            EventType::Exec => 0,
            EventType::Read => 2,
            EventType::Write => 3,
            EventType::Exit => 4,
        }
    }

    /// Human-readable lowercase name.
    pub fn as_str(self) -> (r: &'static str)
        ensures
            r@ == name_of(self),
    {
        proof {
            reveal_strlit("exec");
            reveal_strlit("read");
            reveal_strlit("write");
            reveal_strlit("exit");
        }
        match self {
            EventType::Exec => "exec",
            EventType::Read => "read",
            EventType::Write => "write",
            EventType::Exit => "exit",
        }
    }

    /// Parse a lowercase event type name; the inverse of [`EventType::as_str`].
    pub fn from_name(s: &str) -> (r: Result<Self, ParseEventTypeError>)
        ensures
            r matches Ok(t) ==> name_of(t) == s@,
            r is Err ==> forall|t: EventType| name_of(t) != s@,
    {
        let v = crate::text::chars_of(s);
        let exec = crate::text::chars_of("exec");
        let read = crate::text::chars_of("read");
        let write = crate::text::chars_of("write");
        let exit = crate::text::chars_of("exit");
        proof {
            reveal_strlit("exec");
            reveal_strlit("read");
            reveal_strlit("write");
            reveal_strlit("exit");
        }
        if crate::text::seq_eq(&v, &exec) {
            Ok(EventType::Exec)
        } else if crate::text::seq_eq(&v, &read) {
            Ok(EventType::Read)
        } else if crate::text::seq_eq(&v, &write) {
            Ok(EventType::Write)
        } else if crate::text::seq_eq(&v, &exit) {
            Ok(EventType::Exit)
        } else {
            proof {
                assert forall|t: EventType| name_of(t) != s@ by {
                    match t {
                        EventType::Exec => assert(exec@ =~= name_of(t)),
                        EventType::Read => assert(read@ =~= name_of(t)),
                        EventType::Write => assert(write@ =~= name_of(t)),
                        EventType::Exit => assert(exit@ =~= name_of(t)),
                    }
                }
            }
            Err(ParseEventTypeError { _private: false })
        }
    }
}

impl core::str::FromStr for EventType {
    type Err = ParseEventTypeError;

    fn from_str(s: &str) -> (r: Result<Self, Self::Err>)
        ensures
            r matches Ok(t) ==> name_of(t) == s@,
            r is Err ==> forall|t: EventType| name_of(t) != s@,
    {
        EventType::from_name(s)
    }
}

/// Decoding the wire discriminant of an event type gives it back.
pub proof fn law_wire_roundtrip(t: EventType)
    ensures
        type_of_wire(wire_of(t)) == Some(t),
{
}

/// Every discriminant that decodes is the discriminant of what it decodes to.
pub proof fn law_wire_decodes_exactly(value: u32)
    ensures
        type_of_wire(value) matches Some(t) ==> wire_of(t) == value,
{
}

/// Names are distinct, so parsing the name of an event type gives it back.
pub proof fn law_name_roundtrip(t: EventType, u: EventType)
    ensures
        name_of(t) == name_of(u) ==> t == u,
{
    if t != u {
        match t {
            EventType::Exec => assert(name_of(u)[1] != 'x' || name_of(u)[2] != 'e'),
            EventType::Read => assert(name_of(u)[0] != 'r'),
            EventType::Write => assert(name_of(u).len() != 5),
            EventType::Exit => assert(name_of(u)[1] != 'x' || name_of(u)[2] != 'i'),
        }
    }
}

} // verus!
