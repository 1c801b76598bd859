//! What can go wrong on the DDS side, and the text that says so.
use vstd::prelude::*;
use vstd::string::*;

use crate::text::{decimal, push_decimal, push_signed, signed_decimal, stands_at};

verus! {

#[derive(Debug)]
pub enum DdsError {
    CreateParticipant(i32),
    CreateTopic(i32),
    CreateWriter(i32),
    CreateReader(i32),
    Write(i32),
    Dispose(i32),
    WriteDispose(i32),
    Read(i32),
    InvalidName(String),
    WriterNotFound(u32),
    WriterOwnership(u32),
}

/// The mathematical value of a [`DdsError`].
#[verifier::ext_equal]
pub enum DdsErrorView {
    CreateParticipant(i32),
    CreateTopic(i32),
    CreateWriter(i32),
    CreateReader(i32),
    Write(i32),
    Dispose(i32),
    WriteDispose(i32),
    Read(i32),
    InvalidName(Seq<char>),
    WriterNotFound(u32),
    WriterOwnership(u32),
}

impl View for DdsError {
    type V = DdsErrorView;

    open spec fn view(&self) -> DdsErrorView {
        match *self {
            DdsError::CreateParticipant(rc) => DdsErrorView::CreateParticipant(rc),
            DdsError::CreateTopic(rc) => DdsErrorView::CreateTopic(rc),
            DdsError::CreateWriter(rc) => DdsErrorView::CreateWriter(rc),
            DdsError::CreateReader(rc) => DdsErrorView::CreateReader(rc),
            DdsError::Write(rc) => DdsErrorView::Write(rc),
            DdsError::Dispose(rc) => DdsErrorView::Dispose(rc),
            DdsError::WriteDispose(rc) => DdsErrorView::WriteDispose(rc),
            DdsError::Read(rc) => DdsErrorView::Read(rc),
            DdsError::InvalidName(name) => DdsErrorView::InvalidName(name@),
            DdsError::WriterNotFound(id) => DdsErrorView::WriterNotFound(id),
            DdsError::WriterOwnership(id) => DdsErrorView::WriterOwnership(id),
        }
    }
}

impl DdsErrorView {
    /// The text by which a client is told of the error.
    pub open spec fn message(self) -> Seq<char> {
        match self {
            DdsErrorView::CreateParticipant(rc) => {
                "failed to create DomainParticipant: DDS error code "@ + signed_decimal(rc as int)
            },
            DdsErrorView::CreateTopic(rc) => {
                "failed to create topic: DDS error code "@ + signed_decimal(rc as int)
            },
            DdsErrorView::CreateWriter(rc) => {
                "failed to create writer: DDS error code "@ + signed_decimal(rc as int)
            },
            DdsErrorView::CreateReader(rc) => {
                "failed to create reader: DDS error code "@ + signed_decimal(rc as int)
            },
            DdsErrorView::Write(rc) => {
                "DDS write failed: error code "@ + signed_decimal(rc as int)
            },
            DdsErrorView::Dispose(rc) => {
                "DDS dispose failed: error code "@ + signed_decimal(rc as int)
            },
            DdsErrorView::WriteDispose(rc) => {
                "DDS writedispose failed: error code "@ + signed_decimal(rc as int)
            },
            DdsErrorView::Read(rc) => {
                "DDS read/take failed: error code "@ + signed_decimal(rc as int)
            },
            DdsErrorView::InvalidName(name) => "invalid name: "@ + name,
            DdsErrorView::WriterNotFound(id) => "writer not found: "@ + decimal(id as nat),
            DdsErrorView::WriterOwnership(id) => {
                "writer ownership violation: writer "@ + decimal(id as nat)
                    + " belongs to another session"@
            },
        }
    }
}

fn with_code(head: &str, rc: i32) -> (text: String)
    ensures
        text@ == head@ + signed_decimal(rc as int),
{
    let mut text = head.to_owned();
    push_signed(&mut text, rc);
    text
}

impl DdsError {
    /// The text by which a client is told of the error.
    pub fn message(&self) -> (text: String)
        ensures
            text@ == self@.message(),
    {
        match self {
            DdsError::CreateParticipant(rc) => {
                with_code("failed to create DomainParticipant: DDS error code ", *rc)
            },
            DdsError::CreateTopic(rc) => with_code(
                "failed to create topic: DDS error code ",
                *rc,
            ),
            DdsError::CreateWriter(rc) => with_code(
                "failed to create writer: DDS error code ",
                *rc,
            ),
            DdsError::CreateReader(rc) => with_code(
                "failed to create reader: DDS error code ",
                *rc,
            ),
            DdsError::Write(rc) => with_code("DDS write failed: error code ", *rc),
            DdsError::Dispose(rc) => with_code("DDS dispose failed: error code ", *rc),
            DdsError::WriteDispose(rc) => with_code("DDS writedispose failed: error code ", *rc),
            DdsError::Read(rc) => with_code("DDS read/take failed: error code ", *rc),
            DdsError::InvalidName(name) => {
                let mut text = "invalid name: ".to_owned();
                text.append(name.as_str());
                text
            },
            DdsError::WriterNotFound(id) => {
                let mut text = "writer not found: ".to_owned();
                push_decimal(&mut text, *id as u64);
                text
            },
            DdsError::WriterOwnership(id) => {
                let mut text = "writer ownership violation: writer ".to_owned();
                push_decimal(&mut text, *id as u64);
                text.append(" belongs to another session");
                text
            },
        }
    }
}

/// The text of an error says what has failed and, behind it, the code, the name or
/// the writer in full.
pub proof fn law_dds_error_texts_hold_their_values(e: DdsErrorView)
    ensures
        ({
            let text = e.message();
            match e {
                DdsErrorView::CreateParticipant(rc) => {
                    &&& stands_at(text, 0, "failed to create DomainParticipant: DDS error code "@)
                    &&& stands_at(text, 51, signed_decimal(rc as int))
                    &&& text.len() == 51 + signed_decimal(rc as int).len()
                },
                DdsErrorView::CreateTopic(rc) => {
                    &&& stands_at(text, 0, "failed to create topic: DDS error code "@)
                    &&& stands_at(text, 39, signed_decimal(rc as int))
                    &&& text.len() == 39 + signed_decimal(rc as int).len()
                },
                DdsErrorView::CreateWriter(rc) => {
                    &&& stands_at(text, 0, "failed to create writer: DDS error code "@)
                    &&& stands_at(text, 40, signed_decimal(rc as int))
                    &&& text.len() == 40 + signed_decimal(rc as int).len()
                },
                DdsErrorView::CreateReader(rc) => {
                    &&& stands_at(text, 0, "failed to create reader: DDS error code "@)
                    &&& stands_at(text, 40, signed_decimal(rc as int))
                    &&& text.len() == 40 + signed_decimal(rc as int).len()
                },
                DdsErrorView::Write(rc) => {
                    &&& stands_at(text, 0, "DDS write failed: error code "@)
                    &&& stands_at(text, 29, signed_decimal(rc as int))
                    &&& text.len() == 29 + signed_decimal(rc as int).len()
                },
                DdsErrorView::Dispose(rc) => {
                    &&& stands_at(text, 0, "DDS dispose failed: error code "@)
                    &&& stands_at(text, 31, signed_decimal(rc as int))
                    &&& text.len() == 31 + signed_decimal(rc as int).len()
                },
                DdsErrorView::WriteDispose(rc) => {
                    &&& stands_at(text, 0, "DDS writedispose failed: error code "@)
                    &&& stands_at(text, 36, signed_decimal(rc as int))
                    &&& text.len() == 36 + signed_decimal(rc as int).len()
                },
                DdsErrorView::Read(rc) => {
                    &&& stands_at(text, 0, "DDS read/take failed: error code "@)
                    &&& stands_at(text, 33, signed_decimal(rc as int))
                    &&& text.len() == 33 + signed_decimal(rc as int).len()
                },
                DdsErrorView::InvalidName(name) => {
                    &&& stands_at(text, 0, "invalid name: "@)
                    &&& stands_at(text, 14, name)
                    &&& text.len() == 14 + name.len()
                },
                DdsErrorView::WriterNotFound(id) => {
                    &&& stands_at(text, 0, "writer not found: "@)
                    &&& stands_at(text, 18, decimal(id as nat))
                    &&& text.len() == 18 + decimal(id as nat).len()
                },
                DdsErrorView::WriterOwnership(id) => {
                    &&& stands_at(text, 0, "writer ownership violation: writer "@)
                    &&& stands_at(text, 35, decimal(id as nat))
                    &&& stands_at(text, (35 + decimal(id as nat).len()) as int, " belongs to another session"@)
                    &&& text.len() == 62 + decimal(id as nat).len()
                },
            }
        }),
{
    reveal_strlit(" belongs to another session");
    reveal_strlit("DDS dispose failed: error code ");
    reveal_strlit("DDS read/take failed: error code ");
    reveal_strlit("DDS write failed: error code ");
    reveal_strlit("DDS writedispose failed: error code ");
    reveal_strlit("failed to create DomainParticipant: DDS error code ");
    reveal_strlit("failed to create reader: DDS error code ");
    reveal_strlit("failed to create topic: DDS error code ");
    reveal_strlit("failed to create writer: DDS error code ");
    reveal_strlit("invalid name: ");
    reveal_strlit("writer not found: ");
    reveal_strlit("writer ownership violation: writer ");
    let text = e.message();
    match e {
        DdsErrorView::CreateParticipant(rc) => {
            let at = (0) as int;
            assert(text.subrange(at, at + "failed to create DomainParticipant: DDS error code "@.len()) =~= "failed to create DomainParticipant: DDS error code "@);
            let at = (51) as int;
            assert(text.subrange(at, at + signed_decimal(rc as int).len()) =~= signed_decimal(rc as int));
        },
        DdsErrorView::CreateTopic(rc) => {
            let at = (0) as int;
            assert(text.subrange(at, at + "failed to create topic: DDS error code "@.len()) =~= "failed to create topic: DDS error code "@);
            let at = (39) as int;
            assert(text.subrange(at, at + signed_decimal(rc as int).len()) =~= signed_decimal(rc as int));
        },
        DdsErrorView::CreateWriter(rc) => {
            let at = (0) as int;
            assert(text.subrange(at, at + "failed to create writer: DDS error code "@.len()) =~= "failed to create writer: DDS error code "@);
            let at = (40) as int;
            assert(text.subrange(at, at + signed_decimal(rc as int).len()) =~= signed_decimal(rc as int));
        },
        DdsErrorView::CreateReader(rc) => {
            let at = (0) as int;
            assert(text.subrange(at, at + "failed to create reader: DDS error code "@.len()) =~= "failed to create reader: DDS error code "@);
            let at = (40) as int;
            assert(text.subrange(at, at + signed_decimal(rc as int).len()) =~= signed_decimal(rc as int));
        },
        DdsErrorView::Write(rc) => {
            let at = (0) as int;
            assert(text.subrange(at, at + "DDS write failed: error code "@.len()) =~= "DDS write failed: error code "@);
            let at = (29) as int;
            assert(text.subrange(at, at + signed_decimal(rc as int).len()) =~= signed_decimal(rc as int));
        },
        DdsErrorView::Dispose(rc) => {
            let at = (0) as int;
            assert(text.subrange(at, at + "DDS dispose failed: error code "@.len()) =~= "DDS dispose failed: error code "@);
            let at = (31) as int;
            assert(text.subrange(at, at + signed_decimal(rc as int).len()) =~= signed_decimal(rc as int));
        },
        DdsErrorView::WriteDispose(rc) => {
            let at = (0) as int;
            assert(text.subrange(at, at + "DDS writedispose failed: error code "@.len()) =~= "DDS writedispose failed: error code "@);
            let at = (36) as int;
            assert(text.subrange(at, at + signed_decimal(rc as int).len()) =~= signed_decimal(rc as int));
        },
        DdsErrorView::Read(rc) => {
            let at = (0) as int;
            assert(text.subrange(at, at + "DDS read/take failed: error code "@.len()) =~= "DDS read/take failed: error code "@);
            let at = (33) as int;
            assert(text.subrange(at, at + signed_decimal(rc as int).len()) =~= signed_decimal(rc as int));
        },
        DdsErrorView::InvalidName(name) => {
            let at = (0) as int;
            assert(text.subrange(at, at + "invalid name: "@.len()) =~= "invalid name: "@);
            let at = (14) as int;
            assert(text.subrange(at, at + name.len()) =~= name);
        },
        DdsErrorView::WriterNotFound(id) => {
            let at = (0) as int;
            assert(text.subrange(at, at + "writer not found: "@.len()) =~= "writer not found: "@);
            let at = (18) as int;
            assert(text.subrange(at, at + decimal(id as nat).len()) =~= decimal(id as nat));
        },
        DdsErrorView::WriterOwnership(id) => {
            let at = (0) as int;
            assert(text.subrange(at, at + "writer ownership violation: writer "@.len()) =~= "writer ownership violation: writer "@);
            let at = (35) as int;
            assert(text.subrange(at, at + decimal(id as nat).len()) =~= decimal(id as nat));
            let at = (35 + decimal(id as nat).len()) as int;
            assert(text.subrange(at, at + " belongs to another session"@.len()) =~= " belongs to another session"@);
        },
    }
}

} // verus!
