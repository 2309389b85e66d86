//! Names and requests of host network interfaces.

use vstd::prelude::*;
use vstd::utf8::{decode_utf8, encode_utf8, valid_utf8};

verus! {

/// Length of the name of an interface with its end.
pub const IFACE_NAME_MAX_LEN: usize = 16;

/// Flag: the interface carries frames.
pub const IFF_TAP: i16 = 0x2;

/// Flag: frames have no packet information in front.
pub const IFF_NO_PI: i16 = 0x1000;

/// Flag: frames have a virtio header in front.
pub const IFF_VNET_HDR: i16 = 0x4000;

/// Why an interface cannot be used.
#[derive(Debug)]
pub enum TapError {
    /// The device of interfaces cannot be opened, with an error number.
    OpenTun(i32),
    /// The name is too long.
    InvalidIfname,
    /// The request was refused, with an error number and the name of the interface.
    IfreqExecuteError(i32, String),
    /// The offload flags were refused, with an error number.
    SetOffloadFlags(i32),
    /// The length of the header was refused, with an error number.
    SetSizeOfVnetHdr(i32),
}

/// A name with zeros behind it.
pub open spec fn terminated(name: Seq<u8>) -> Seq<u8> {
    Seq::new(
        IFACE_NAME_MAX_LEN as nat,
        |i: int|
            if i < name.len() {
                name[i]
            } else {
                0u8
            },
    )
}

/// The bytes of a name with zeros behind it.
pub fn build_terminated_if_name(if_name: &str) -> (r: Result<Vec<u8>, TapError>)
    ensures
        encode_utf8(if_name@).len() >= IFACE_NAME_MAX_LEN ==> r is Err && r->Err_0
            is InvalidIfname,
        encode_utf8(if_name@).len() < IFACE_NAME_MAX_LEN ==> r is Ok && r->Ok_0@ == terminated(
            encode_utf8(if_name@),
        ),
{
    let mut name: Vec<u8> = if_name.as_bytes_vec();
    let ghost given = name@;
    if name.len() >= IFACE_NAME_MAX_LEN {
        return Err(TapError::InvalidIfname);
    }
    while name.len() < IFACE_NAME_MAX_LEN
        invariant
            given.len() <= name@.len() <= IFACE_NAME_MAX_LEN,
            name@ == Seq::new(
                name@.len(),
                |i: int|
                    if i < given.len() {
                        given[i]
                    } else {
                        0u8
                    },
            ),
        decreases IFACE_NAME_MAX_LEN - name.len(),
    {
        name.push(0);
        assert(name@ =~= Seq::new(
            name@.len(),
            |i: int|
                if i < given.len() {
                    given[i]
                } else {
                    0u8
                },
        ));
    }
    assert(name@ =~= terminated(given));
    Ok(name)
}

/// The bytes of a name up to the first zero.
pub open spec fn unterminated(name: Seq<u8>) -> Seq<u8>
    decreases name.len(),
{
    if name.len() == 0 || name[0] == 0 {
        seq![]
    } else {
        seq![name[0]] + unterminated(name.skip(1))
    }
}

/// A name that holds no zero is read back from its bytes.
pub proof fn law_name_comes_back(name: Seq<u8>)
    requires
        name.len() < IFACE_NAME_MAX_LEN,
        !name.contains(0u8),
    ensures
        unterminated(terminated(name)) == name,
{
    lemma_name_comes_back(name, terminated(name));
}

proof fn lemma_name_comes_back(name: Seq<u8>, longer: Seq<u8>)
    requires
        name.len() < longer.len(),
        !name.contains(0u8),
        forall|i: int| 0 <= i < name.len() ==> #[trigger] longer[i] == name[i],
        longer[name.len() as int] == 0,
    ensures
        unterminated(longer) == name,
    decreases name.len(),
{
    if name.len() == 0 {
        assert(unterminated(longer) =~= name);
    } else {
        assert(name.contains(name[0]));
        let rest = name.skip(1);
        assert(!rest.contains(0u8)) by {
            if rest.contains(0u8) {
                let i = choose|i: int| 0 <= i < rest.len() && rest[i] == 0u8;
                assert(name[i + 1] == 0u8);
            }
        }
        assert forall|i: int| 0 <= i < rest.len() implies #[trigger] longer.skip(1)[i]
            == rest[i] by {
            assert(longer[i + 1] == name[i + 1]);
        }
        lemma_name_comes_back(rest, longer.skip(1));
        assert(name =~= seq![name[0]] + rest);
    }
}

/// `std::str::from_utf8` gives the text that bytes encode, if they are valid UTF-8.
#[verifier::external_body]
fn text_of(bytes: &[u8]) -> (r: Option<String>)
    ensures
        r is Some == valid_utf8(bytes@),
        r matches Some(s) ==> s@ == decode_utf8(bytes@),
{
    std::str::from_utf8(bytes).ok().map(|s| s.to_string())
}

/// The name of an interface, from its bytes. A name that is not valid text counts as empty.
pub fn if_name_as_str(if_name: &[u8]) -> (r: String)
    ensures
        valid_utf8(unterminated(if_name@)) ==> r@ == decode_utf8(unterminated(if_name@)),
        !valid_utf8(unterminated(if_name@)) ==> r@.len() == 0,
{
    let mut name: Vec<u8> = Vec::new();
    let mut i: usize = 0;
    assert(if_name@.skip(0) =~= if_name@);
    assert(name@ + unterminated(if_name@) =~= unterminated(if_name@));
    while i < if_name.len() && if_name[i] != 0
        invariant
            i <= if_name@.len(),
            unterminated(if_name@) == name@ + unterminated(if_name@.skip(i as int)),
        ensures
            unterminated(if_name@) == name@,
        decreases if_name.len() - i,
    {
        let ghost former = name@;
        name.push(if_name[i]);
        assert(if_name@.skip(i as int).skip(1) =~= if_name@.skip(i + 1));
        assert(unterminated(if_name@) =~= name@ + unterminated(if_name@.skip(i + 1)));
        i = i + 1;
        if i >= if_name.len() || if_name[i] == 0 {
            assert(unterminated(if_name@.skip(i as int)) =~= Seq::<u8>::empty());
            assert(name@ + Seq::<u8>::empty() =~= name@);
        }
    }
    match text_of(name.as_slice()) {
        Some(s) => s,
        None => String::new(),
    }
}

/// A request to the device of interfaces.
#[derive(Debug)]
pub struct IfReqBuilder {
    /// Name of the interface.
    pub name: Vec<u8>,
    /// Flags of the interface.
    pub flags: i16,
}

impl IfReqBuilder {
    /// A request without name and flags.
    pub fn new() -> (r: IfReqBuilder)
        ensures
            r.name@ == terminated(seq![]),
            r.flags == 0,
    {
        let mut name: Vec<u8> = Vec::new();
        while name.len() < IFACE_NAME_MAX_LEN
            invariant
                name@.len() <= IFACE_NAME_MAX_LEN,
                name@ == Seq::new(name@.len(), |i: int| 0u8),
            decreases IFACE_NAME_MAX_LEN - name.len(),
        {
            name.push(0);
            assert(name@ =~= Seq::new(name@.len(), |i: int| 0u8));
        }
        assert(name@ =~= terminated(seq![]));
        IfReqBuilder { name, flags: 0 }
    }

    /// The request with a name.
    pub fn if_name(self, if_name: Vec<u8>) -> (r: IfReqBuilder)
        ensures
            r.name == if_name,
            r.flags == self.flags,
    {
        IfReqBuilder { name: if_name, flags: self.flags }
    }

    /// The request with flags.
    pub fn flags(self, flags: i16) -> (r: IfReqBuilder)
        ensures
            r.name == self.name,
            r.flags == flags,
    {
        IfReqBuilder { name: self.name, flags }
    }
}

/// The request by which an interface is opened.
pub fn open_request(if_name: &str) -> (r: Result<IfReqBuilder, TapError>)
    ensures
        encode_utf8(if_name@).len() >= IFACE_NAME_MAX_LEN ==> r is Err && r->Err_0
            is InvalidIfname,
        encode_utf8(if_name@).len() < IFACE_NAME_MAX_LEN ==> {
            &&& r is Ok
            &&& r->Ok_0.name@ == terminated(encode_utf8(if_name@))
            &&& r->Ok_0.flags == IFF_TAP | IFF_NO_PI | IFF_VNET_HDR
        },
{
    let name = match build_terminated_if_name(if_name) {
        Ok(name) => name,
        Err(e) => {
            return Err(e);
        },
    };
    Ok(IfReqBuilder::new().if_name(name).flags(IFF_TAP | IFF_NO_PI | IFF_VNET_HDR))
}

} // verus!
