//! Block padding of queries that travel over an encrypted transport.
use vstd::prelude::*;
use vstd::string::*;
use crate::message::{read_message, write_with_opt, OptParts};
use crate::message::{has_form, is_whole, length_follows, message_error, message_in, message_with_opt, opt_model, option_models, options_len, wire_model, OptModel};
use crate::text::decimal_of;

verus! {

/// The block to whose multiple a query is padded, in bytes.
pub const PADDING_BLOCK: usize = 128;

/// The code of the padding option.
pub const PADDING_CODE: u16 = 12;

/// The largest payload that the OPT record of a padded query announces, where the query had
/// no such record.
pub const PADDED_MAX_PAYLOAD: u16 = 4096;

/// Errors of padding.
#[derive(Debug)]
pub enum PaddingError {
    /// The message could not be read or written.
    Build(String),
    /// The padded message does not fill whole blocks.
    Invariant { len: usize, block: usize },
}

/// The message shown for an error.
pub open spec fn padding_error_text(e: PaddingError) -> Seq<char> {
    match e {
        PaddingError::Build(s) => "padding build error: "@ + s@,
        PaddingError::Invariant { len, block } => "padding invariant violated: len="@
            + crate::text::decimal(len as nat) + " block="@ + crate::text::decimal(block as nat),
    }
}

impl PaddingError {
    /// The message shown for the error.
    pub fn message(&self) -> (r: String)
        ensures
            r@ == padding_error_text(*self),
    {
        match self {
            PaddingError::Build(s) => "padding build error: ".to_owned().concat(s.as_str()),
            PaddingError::Invariant { len, block } => {
                let mut m = "padding invariant violated: len=".to_owned();
                let a = decimal_of(*len as u64);
                m.append(a.as_str());
                m.append(" block=");
                let b = decimal_of(*block as u64);
                m.append(b.as_str());
                m
            },
        }
    }
}

/// The options without those that pad.
pub open spec fn without_padding(options: Seq<(u16, Seq<u8>)>) -> Seq<(u16, Seq<u8>)>
    decreases options.len(),
{
    if options.len() == 0 {
        Seq::<(u16, Seq<u8>)>::empty()
    } else if options.last().0 == PADDING_CODE {
        without_padding(options.drop_last())
    } else {
        without_padding(options.drop_last()).push(options.last())
    }
}

/// The OPT record of a message whose padding was taken out.  A message without such a record
/// gets one.
pub open spec fn unpadded_opt(opt: Option<OptModel>) -> OptModel {
    match opt {
        None => OptModel {
            max_payload: PADDED_MAX_PAYLOAD,
            version: 0,
            flags: 0,
            options: Seq::<(u16, Seq<u8>)>::empty(),
        },
        Some(o) => OptModel { options: without_padding(o.options), ..o },
    }
}

/// The OPT record of a message that is padded with `data` in place of the padding it had, or
/// with nothing.
pub open spec fn padded_opt(opt: Option<OptModel>, data: Option<Seq<u8>>) -> OptModel {
    let bare = unpadded_opt(opt);
    match data {
        None => bare,
        Some(d) => OptModel { options: bare.options.push((PADDING_CODE, d)), ..bare },
    }
}

/// The bytes of an optional vector.
pub open spec fn opt_bytes(o: Option<Vec<u8>>) -> Option<Seq<u8>> {
    match o {
        Some(b) => Some(b@),
        None => None,
    }
}

/// The options without those that pad.
fn drop_padding(options: Vec<(u16, Vec<u8>)>) -> (r: Vec<(u16, Vec<u8>)>)
    ensures
        option_models(r@) == without_padding(option_models(options@)),
{
    let ghost given = options@;
    let ghost first = option_models(given);
    let mut r: Vec<(u16, Vec<u8>)> = Vec::new();
    let mut i: usize = 0;
    while i < options.len()
        invariant
            0 <= i <= options.len(),
            options@ == given,
            first == option_models(given),
            option_models(r@) == without_padding(first.take(i as int)),
        decreases options.len() - i,
    {
        let ghost before = option_models(r@);
        proof {
            assert(first.take(i + 1).drop_last() =~= first.take(i as int));
            assert(first.take(i + 1).last() == (given[i as int].0, given[i as int].1@));
        }
        if options[i].0 != PADDING_CODE {
            let data = options[i].1.clone();
            proof {
                assert(data@ =~= given[i as int].1@);
            }
            r.push((options[i].0, data));
            proof {
                assert(option_models(r@) =~= before.push((given[i as int].0, given[i as int].1@)));
            }
        }
        i += 1;
    }
    proof {
        assert(first.take(i as int) =~= first);
    }
    r
}

/// The OPT record of a message that is padded with `data` in place of the padding it had.
pub fn padded_options(opt: Option<OptParts>, data: Option<Vec<u8>>) -> (r: OptParts)
    ensures
        r@ == padded_opt(opt_model(opt), opt_bytes(data)),
{
    let mut r = match opt {
        None => OptParts {
            max_payload: PADDED_MAX_PAYLOAD,
            version: 0,
            flags: 0,
            options: Vec::new(),
        },
        Some(o) => OptParts {
            max_payload: o.max_payload,
            version: o.version,
            flags: o.flags,
            options: drop_padding(o.options),
        },
    };
    proof {
        assert(r@ =~= unpadded_opt(opt_model(opt)));
    }
    match data {
        None => {},
        Some(d) => {
            let ghost before = option_models(r.options@);
            r.options.push((PADDING_CODE, d));
            proof {
                assert(option_models(r.options@) =~= before.push((PADDING_CODE, d@)));
            }
        },
    }
    r
}

proof fn lemma_without_padding(options: Seq<(u16, Seq<u8>)>)
    ensures
        forall|i: int|
            0 <= i < without_padding(options).len() ==> {
                &&& #[trigger] without_padding(options)[i].0 != PADDING_CODE
                &&& options.contains(without_padding(options)[i])
            },
        without_padding(without_padding(options)) == without_padding(options),
    decreases options.len(),
{
    if options.len() > 0 {
        let f = options.drop_last();
        lemma_without_padding(f);
        assert forall|i: int| 0 <= i < without_padding(options).len() implies {
            &&& #[trigger] without_padding(options)[i].0 != PADDING_CODE
            &&& options.contains(without_padding(options)[i])
        } by {
            if i < without_padding(f).len() {
                assert(without_padding(options)[i] == without_padding(f)[i]);
                let k = choose|k: int| 0 <= k < f.len() && f[k] == without_padding(f)[i];
                assert(options[k] == without_padding(f)[i]);
            } else {
                assert(options[options.len() - 1] == without_padding(options)[i]);
            }
        }
        if options.last().0 != PADDING_CODE {
            assert(without_padding(options).drop_last() =~= without_padding(f));
        }
    }
}

/// Padding replaces padding: whatever a message was padded with, it comes to the same when it is
/// padded anew.
pub proof fn law_padding_is_replaced(opt: Option<OptModel>, was: Option<Seq<u8>>, data: Option<Seq<u8>>)
    ensures
        padded_opt(Some(padded_opt(opt, was)), data) == padded_opt(opt, data),
{
    let bare = unpadded_opt(opt);
    match opt {
        Some(o) => lemma_without_padding(o.options),
        None => {},
    }
    assert(without_padding(bare.options) =~= bare.options);
    match was {
        Some(w) => {
            let o = bare.options.push((PADDING_CODE, w));
            assert(o.drop_last() =~= bare.options);
            assert(without_padding(o) =~= bare.options);
        },
        None => {},
    }
    assert(unpadded_opt(Some(padded_opt(opt, was))) =~= bare);
}

/// A padded message carries one option that pads, and it is the last.
pub proof fn law_padding_is_not_stacked(opt: Option<OptModel>, data: Seq<u8>, i: int)
    requires
        0 <= i < padded_opt(opt, Some(data)).options.len(),
    ensures
        padded_opt(opt, Some(data)).options[i].0 == PADDING_CODE <==> i == padded_opt(
            opt,
            Some(data),
        ).options.len() - 1,
{
    match opt {
        Some(o) => lemma_without_padding(o.options),
        None => {},
    }
    let bare = unpadded_opt(opt);
    if i < bare.options.len() {
        assert(padded_opt(opt, Some(data)).options[i] == bare.options[i]);
    }
}

/// The number of zeros that fill up the last block, for a message of `base_len` bytes to which
/// an option with a head of four bytes is added.
pub open spec fn zeros_needed(base_len: nat) -> nat {
    ((128 - (base_len + 4) % 128) % 128) as nat
}

/// The number of zeros that fill up the last block.
pub fn padding_data_len(base_len: usize) -> (r: usize)
    requires
        base_len + 4 <= usize::MAX,
    ensures
        r == zeros_needed(base_len as nat),
{
    (PADDING_BLOCK - ((base_len + 4) % PADDING_BLOCK)) % PADDING_BLOCK
}

/// A padded message fills whole blocks, and one block less would not hold it.
pub proof fn law_padding_fills_whole_blocks(base_len: nat)
    ensures
        (base_len + 4 + zeros_needed(base_len)) % 128 == 0,
        zeros_needed(base_len) < 128,
{
}

/// `n` zeros.
pub fn zeros(n: usize) -> (r: Vec<u8>)
    ensures
        r@ == Seq::new(n as nat, |i: int| 0u8),
{
    let mut v: Vec<u8> = Vec::new();
    let mut i: usize = 0;
    while i < n
        invariant
            0 <= i <= n,
            v@ == Seq::new(i as nat, |i: int| 0u8),
        decreases n - i,
    {
        v.push(0);
        proof {
            assert(v@ =~= Seq::new((i + 1) as nat, |i: int| 0u8));
        }
        i += 1;
    }
    v
}

/// Hands a padded message on, provided that it fills whole blocks.
pub fn whole_blocks(padded: Vec<u8>) -> (r: Result<Vec<u8>, PaddingError>)
    ensures
        (match r {
            Ok(p) => p@ == padded@ && p@.len() % 128 == 0,
            Err(e) => padded@.len() % 128 != 0 && e == (PaddingError::Invariant {
                len: padded@.len() as usize,
                block: PADDING_BLOCK,
            }),
        }),
{
    if padded.len() % PADDING_BLOCK != 0 {
        return Err(PaddingError::Invariant { len: padded.len(), block: PADDING_BLOCK });
    }
    Ok(padded)
}

/// What padding gives, as bytes and text.
pub enum PaddedModel {
    /// The padded message.
    Padded(Seq<u8>),
    /// The message could not be read or written.
    Refused(Seq<char>),
    /// The padded message does not fill whole blocks.
    Uneven(nat),
}

/// The zeros that pad a message.
pub open spec fn padding_zeros(n: nat) -> Seq<u8> {
    Seq::new(n, |i: int| 0u8)
}

/// The query with its padding taken out and an OPT record put in where it had none.
pub open spec fn unpadded_wire(wire: Seq<u8>) -> Result<Seq<u8>, Seq<char>> {
    message_with_opt(wire, padded_opt(message_in(wire)->Ok_0.opt, None))
}

/// The query with `n` zeros of padding in place of the padding it had.
pub open spec fn padded_wire(wire: Seq<u8>, n: nat) -> Result<Seq<u8>, Seq<char>> {
    message_with_opt(wire, padded_opt(message_in(wire)->Ok_0.opt, Some(padding_zeros(n))))
}

/// What padding a query gives.
pub open spec fn padded_query(wire: Seq<u8>) -> PaddedModel {
    match message_error(wire) {
        Some(e) => PaddedModel::Refused("parse: "@ + e),
        None => match unpadded_wire(wire) {
            Err(e) => PaddedModel::Refused("serialize (base): "@ + e),
            Ok(base) => match padded_wire(wire, zeros_needed(base.len())) {
                Err(e) => PaddedModel::Refused("serialize (padded): "@ + e),
                Ok(p) => if p.len() % 128 == 0 {
                    PaddedModel::Padded(p)
                } else {
                    PaddedModel::Uneven(p.len())
                },
            },
        },
    }
}

/// Where nothing was cut off, `p` asks what the query asks and has an OPT record, fills the blocks
/// that it needs and no more, and padding `p` again changes nothing.
pub open spec fn is_settled(wire: Seq<u8>, p: Seq<u8>) -> bool {
    is_whole(wire, p) ==> {
        &&& padded_query(p) == PaddedModel::Padded(p)
        &&& is_whole(p, p)
        &&& message_in(p) is Ok
        &&& message_in(p)->Ok_0.questions == message_in(wire)->Ok_0.questions
        &&& message_in(p)->Ok_0.opt is Some
        &&& unpadded_wire(wire) is Ok
        &&& is_whole(wire, unpadded_wire(wire)->Ok_0)
        &&& p.len() == unpadded_wire(wire)->Ok_0.len() + 4 + zeros_needed(
            unpadded_wire(wire)->Ok_0.len(),
        )
    }
}

/// Pads a query to a whole number of blocks.  Padding that it already has is replaced.
///
/// Every query that can be written whole and leaves room for its padding is padded, and nothing of
/// it is cut off.  A padded message of which nothing was cut off asks what it asked before, and
/// padding it again changes nothing.
pub fn pad_dns_query(wire: &[u8]) -> (r: Result<Vec<u8>, PaddingError>)
    ensures
        (match r {
            Ok(p) => padded_query(wire@) == PaddedModel::Padded(p@),
            Err(PaddingError::Build(s)) => padded_query(wire@) == PaddedModel::Refused(s@),
            Err(PaddingError::Invariant { len, block }) => padded_query(wire@) == PaddedModel::Uneven(
                len as nat,
            ) && block == PADDING_BLOCK,
        }),
        r matches Ok(p) ==> p@.len() % 128 == 0,
        message_error(wire@) is None ==> (unpadded_wire(wire@) matches Ok(base) ==> (is_whole(
            wire@,
            base,
        ) && base.len() <= 65404 ==> r is Ok && is_whole(wire@, r->Ok_0@))),
        r matches Ok(p) ==> is_settled(wire@, p@),
{
    let parts = match read_message(wire) {
        Err(e) => {
            return Err(PaddingError::Build("parse: ".to_owned().concat(e.as_str())));
        },
        Ok(m) => m,
    };
    let ghost was = message_in(wire@)->Ok_0.opt;
    let bare = padded_options(parts.opt, None);
    let base = match write_with_opt(wire, &bare) {
        Err(e) => {
            return Err(PaddingError::Build("serialize (base): ".to_owned().concat(e.as_str())));
        },
        Ok(b) => b,
    };
    let n = padding_data_len(base.len());
    let ghost bare_opt = bare@;
    let opt = padded_options(Some(bare), Some(zeros(n)));
    proof {
        law_padding_is_replaced(was, None, Some(padding_zeros(n as nat)));
        assert(opt@ == padded_opt(was, Some(padding_zeros(n as nat))));
        assert(opt@.options.drop_last() =~= bare_opt.options);
        assert(options_len(opt@.options) == options_len(bare_opt.options) + 4 + n);
    }
    let written = write_with_opt(wire, &opt);
    proof {
        assert(length_follows(wire@, bare_opt, opt@, wire_model(written)));
        assert(length_follows(wire@, opt@, bare_opt, Ok(base@)));
    }
    match written {
        Err(e) => Err(PaddingError::Build("serialize (padded): ".to_owned().concat(e.as_str()))),
        Ok(p) => {
            proof {
                match was {
                    Some(o) => lemma_without_padding(o.options),
                    None => {},
                }
                assert forall|i: int|
                    0 <= i < opt@.options.len() && has_form(#[trigger] opt@.options[i].0) implies {
                    was matches Some(o) && o.options.contains(opt@.options[i])
                } by {
                    assert(i < bare_opt.options.len());
                    assert(opt@.options[i] == bare_opt.options[i]);
                }
                law_padding_is_replaced(was, Some(padding_zeros(n as nat)), None);
                law_padding_is_replaced(
                    was,
                    Some(padding_zeros(n as nat)),
                    Some(padding_zeros(n as nat)),
                );
            }
            whole_blocks(p)
        },
    }
}

// ── What the steps mean ─────────────────────────────────────────────────────

/// The zeros that are added fill the last block with the head of the option, and never a block
/// more than is needed; they are zeros.
pub proof fn law_how_much_is_padded(base_len: usize, n: usize, z: Vec<u8>)
    requires
        base_len + 4 <= usize::MAX,
        call_ensures(padding_data_len, (base_len,), n),
        call_ensures(zeros, (n,), z),
    ensures
        (base_len + 4 + n) % 128 == 0,
        n < 128,
        z@.len() == n,
        forall|i: int| 0 <= i < z@.len() ==> #[trigger] z@[i] == 0,
{
}

/// An option that pads.
pub open spec fn pads(o: (u16, Seq<u8>)) -> bool {
    o.0 == 12
}

proof fn lemma_without_padding_is_filtered(options: Seq<(u16, Seq<u8>)>)
    ensures
        without_padding(options) == options.filter(|o: (u16, Seq<u8>)| !pads(o)),
    decreases options.len(),
{
    reveal(Seq::filter);
    if options.len() > 0 {
        lemma_without_padding_is_filtered(options.drop_last());
    } else {
        assert(options.filter(|o: (u16, Seq<u8>)| !pads(o)) =~= Seq::<(u16, Seq<u8>)>::empty());
    }
}

/// Padding keeps all that an OPT record says but its padding, in order, and puts its own behind
/// it; a message without such a record gets a plain one.
pub proof fn law_padding_keeps_everything_else(opt: Option<OptParts>, data: Option<Vec<u8>>, r: OptParts)
    requires
        call_ensures(padded_options, (opt, data), r),
    ensures
        opt matches Some(o) ==> r.max_payload == o.max_payload && r.version == o.version && r.flags
            == o.flags,
        opt is None ==> r.max_payload == 4096 && r.version == 0 && r.flags == 0,
        ({
            let kept = match opt {
                Some(o) => option_models(o.options@).filter(|o: (u16, Seq<u8>)| !pads(o)),
                None => Seq::<(u16, Seq<u8>)>::empty(),
            };
            option_models(r.options@) == match data {
                Some(d) => kept.push((12u16, d@)),
                None => kept,
            }
        }),
{
    match opt {
        Some(o) => lemma_without_padding_is_filtered(option_models(o.options@)),
        None => {},
    }
}

/// Only what fills whole blocks is handed on, as it is.
pub proof fn law_only_whole_blocks_are_handed_on(padded: Vec<u8>, r: Result<Vec<u8>, PaddingError>)
    requires
        call_ensures(whole_blocks, (padded,), r),
    ensures
        r is Ok <==> padded@.len() % 128 == 0,
        r matches Ok(p) ==> p@ == padded@,
{
}

/// A query that was padded fills whole blocks, and asks what it asked before where nothing was
/// cut off; padding it again gives the same bytes.
pub proof fn law_a_padded_query_asks_the_same(
    wire: &[u8],
    r: Result<Vec<u8>, PaddingError>,
    again: &[u8],
    s: Result<Vec<u8>, PaddingError>,
)
    requires
        call_ensures(pad_dns_query, (wire,), r),
        r matches Ok(p) && is_whole(wire@, p@) && again@ == p@,
        call_ensures(pad_dns_query, (again,), s),
    ensures
        r->Ok_0@.len() % 128 == 0,
        message_in(again@) is Ok,
        message_in(again@)->Ok_0.questions == message_in(wire@)->Ok_0.questions,
        s matches Ok(q) && q@ == again@,
{
}

}
