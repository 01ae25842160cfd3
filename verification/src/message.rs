//! DNS messages in wire format, as far as the daemon looks into them.
use vstd::prelude::*;
use hickory_proto::op::{Edns, EdnsFlags, Message};
use hickory_proto::rr::rdata::opt::{EdnsCode, EdnsOption};

verus! {

/// The OPT record of a message.
#[derive(Debug)]
pub struct OptParts {
    /// The largest payload that its sender takes.
    pub max_payload: u16,
    pub version: u8,
    pub flags: u16,
    /// The options, each with its code and its data.
    pub options: Vec<(u16, Vec<u8>)>,
}

/// The OPT record of a message, as numbers.
#[verifier::ext_equal]
pub struct OptModel {
    pub max_payload: u16,
    pub version: u8,
    pub flags: u16,
    pub options: Seq<(u16, Seq<u8>)>,
}

/// The options, as numbers.
pub open spec fn option_models(v: Seq<(u16, Vec<u8>)>) -> Seq<(u16, Seq<u8>)> {
    v.map_values(|o: (u16, Vec<u8>)| (o.0, o.1@))
}

impl View for OptParts {
    type V = OptModel;

    open spec fn view(&self) -> OptModel {
        OptModel {
            max_payload: self.max_payload,
            version: self.version,
            flags: self.flags,
            options: option_models(self.options@),
        }
    }
}

/// What an optional OPT record says.
pub open spec fn opt_model(o: Option<OptParts>) -> Option<OptModel> {
    match o {
        Some(p) => Some(p@),
        None => None,
    }
}

/// A question: the name it is about, the type and the class of the records it asks for.
pub type Question = (String, u16, u16);

/// What stands in a message, as far as it is looked at: its questions and its OPT record.
#[derive(Debug)]
pub struct MessageParts {
    pub questions: Vec<Question>,
    pub opt: Option<OptParts>,
}

/// The questions and the OPT record of a message, as numbers and text.
pub struct MessageModel {
    pub questions: Seq<(Seq<char>, u16, u16)>,
    pub opt: Option<OptModel>,
}

impl View for MessageParts {
    type V = MessageModel;

    open spec fn view(&self) -> MessageModel {
        MessageModel {
            questions: self.questions@.map_values(|q: Question| (q.0@, q.1, q.2)),
            opt: opt_model(self.opt),
        }
    }
}

/// What stands in the message that `Message::from_vec` reads from the bytes; the error as text
/// where they are no message.
pub uninterp spec fn message_in(wire: Seq<u8>) -> Result<MessageModel, Seq<char>>;

/// The error with which the bytes are refused as a message, or none.
pub open spec fn message_error(wire: Seq<u8>) -> Option<Seq<char>> {
    match message_in(wire) {
        Ok(_) => None,
        Err(e) => Some(e),
    }
}

/// `hickory_proto::op::Message::from_vec`: reads a message in wire format.  What stands in it,
/// or the error, is a function of the bytes.  A payload size under 512 is read as 512.  The data
/// of an option is handed out as it is written; an option that was read can be written.
#[verifier::external_body]
pub(crate) fn read_message(wire: &[u8]) -> (r: Result<MessageParts, String>)
    ensures
        (match r {
            Ok(m) => message_in(wire@) == Ok::<MessageModel, Seq<char>>(m@),
            Err(e) => message_in(wire@) == Err::<MessageModel, Seq<char>>(e@),
        }),
        r matches Ok(m) ==> (m.opt matches Some(o) ==> o.max_payload >= 512),
{
    let m = Message::from_vec(wire).map_err(|e| e.to_string())?;
    let opt = match m.edns {
        None => None,
        Some(e) => Some(OptParts {
            max_payload: e.max_payload(),
            version: e.version(),
            flags: u16::from(*e.flags()),
            options: Result::from_iter(
                e.options().options.iter().map(|(c, o)| Vec::try_from(o).map(|d| ((*c).into(), d)))
            ).map_err(|e| e.to_string())?
        }),
    };
    Ok(MessageParts { questions: m.queries.iter()
        .map(|q| (q.name.to_string(), q.query_type.into(), q.query_class.into())).collect(), opt })
}

/// The number in two bytes of the head of a message, the high one first.
pub open spec fn count_at(wire: Seq<u8>, i: int) -> int {
    wire[i] * 256 + wire[i + 1]
}

/// The head of `b` announces every question and every record of the message in `wire`, and an OPT
/// record where that has none: nothing was cut off.
pub open spec fn is_whole(wire: Seq<u8>, b: Seq<u8>) -> bool {
    &&& count_at(b, 4) == count_at(wire, 4)
    &&& count_at(b, 6) == count_at(wire, 6)
    &&& count_at(b, 8) == count_at(wire, 8)
    &&& count_at(b, 10) == if message_in(wire)->Ok_0.opt is Some {
        count_at(wire, 10)
    } else {
        count_at(wire, 10) + 1
    }
}

/// The number of bytes that options take: four for the head of each, and its data.
pub open spec fn options_len(options: Seq<(u16, Seq<u8>)>) -> nat
    decreases options.len(),
{
    if options.len() == 0 {
        0
    } else {
        options_len(options.drop_last()) + 4 + options.last().1.len()
    }
}

/// The codes of the options whose data has a form of its own: understood algorithms, and the
/// client's subnet.
pub open spec fn has_form(code: u16) -> bool {
    code == 5 || code == 8
}

/// Each option of `o` whose data has a form of its own stands in the message `m` too.
pub open spec fn options_are_readable(m: MessageModel, o: OptModel) -> bool {
    forall|i: int|
        0 <= i < o.options.len() && has_form(#[trigger] o.options[i].0) ==> {
            m.opt matches Some(was) && was.options.contains(o.options[i])
        }
}

/// The message in `wire`, written again by `Message::to_vec` with the given OPT record; the
/// error as text where it cannot be written.
pub uninterp spec fn message_with_opt(wire: Seq<u8>, opt: OptModel) -> Result<Seq<u8>, Seq<char>>;

/// What writing a message gives, as bytes and text.
pub open spec fn wire_model(r: Result<Vec<u8>, String>) -> Result<Seq<u8>, Seq<char>> {
    match r {
        Ok(b) => Ok(b@),
        Err(e) => Err(e@),
    }
}

/// Where the message in `wire` is written whole with the OPT record `o`, and there is room for it
/// with the OPT record `opt`, `r` is the whole message with the latter: it is as much longer as
/// its options are.
pub open spec fn length_follows(
    wire: Seq<u8>,
    o: OptModel,
    opt: OptModel,
    r: Result<Seq<u8>, Seq<char>>,
) -> bool {
    match message_with_opt(wire, o) {
        Ok(base) => {
            let len = base.len() - options_len(o.options) + options_len(opt.options);
            is_whole(wire, base) && len <= 65535 ==> (r matches Ok(b) && b.len() == len && is_whole(
                wire,
                b,
            ))
        },
        Err(_) => true,
    }
}

/// Where nothing was cut off, `b` is read again as the message in `wire` with the OPT record
/// `opt`: it has the same questions, and with another OPT record it is written as `wire` is.
pub open spec fn reads_back(wire: Seq<u8>, opt: OptModel, b: Seq<u8>) -> bool {
    let m = message_in(wire)->Ok_0;
    is_whole(wire, b) && opt.max_payload >= 512 && options_are_readable(m, opt) ==> {
        &&& message_in(b) == Ok::<MessageModel, Seq<char>>(MessageModel { opt: Some(opt), ..m })
        &&& forall|o: OptModel| #[trigger] message_with_opt(b, o) == message_with_opt(wire, o)
    }
}

/// `hickory_proto::op::Message::to_vec`, on the message that `Message::from_vec` reads from
/// `wire`, with an OPT record in place of the one it had.  The result is a function of the
/// arguments.
///
/// The encoder writes at most 65535 bytes.  Where a record does not fit it is left out, and the
/// head of the message counts the records that were written.  The OPT record is the last one:
/// where no record had to be left out and there is room, two encodings of one message differ in
/// length as their options do.
///
/// Where no record was left out, the message is read again as it was written.  Names that were
/// compressed come back in full; the data of a record is kept as it stands or in fields that are
/// written as they were read, whatever its type.  So nothing but the OPT record is lost where
/// that is replaced.
#[verifier::external_body]
pub(crate) fn write_with_opt(wire: &[u8], opt: &OptParts) -> (r: Result<Vec<u8>, String>)
    requires
        message_in(wire@) is Ok,
    ensures
        (match r {
            Ok(b) => message_with_opt(wire@, opt@) == Ok::<Seq<u8>, Seq<char>>(b@),
            Err(e) => message_with_opt(wire@, opt@) == Err::<Seq<u8>, Seq<char>>(e@),
        }),
        r matches Ok(b) ==> 12 <= b@.len() <= 65535,
        forall|o: OptModel| #[trigger] length_follows(wire@, o, opt@, wire_model(r)),
        r matches Ok(b) ==> reads_back(wire@, opt@, b@),
{
    let mut m = Message::from_vec(wire).map_err(|e| e.to_string())?;
    let mut edns = Edns::new();
    edns.set_max_payload(opt.max_payload);
    edns.set_version(opt.version);
    *edns.flags_mut() = EdnsFlags::from(opt.flags);
    edns.options_mut().options = opt.options.iter()
        .map(|(c, d)| (EdnsCode::from(*c), EdnsOption::Unknown(*c, d.clone()))).collect();
    m.edns = Some(edns);
    m.to_vec().map_err(|e| e.to_string())
}

}
