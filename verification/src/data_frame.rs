//! The VIPC transport records carried in the body of a data frame.
use vstd::prelude::*;

use crate::bytes::{push_all, push_u16, spec_u16_le, spec_u16_le_bytes};
use crate::cursor::Cursor;
use crate::error::{err_view, invalid, spec_decimal, FrameError, FrameErrorView};
use crate::wire::{read_small_slice, u8_len};

verus! {

#[derive(Clone, Copy, Debug, PartialEq, Eq)]
pub enum DataFrameType {
    Msg,
    Connect,
    ConnectResponse,
    Disconnect,
    DisconnectResponse,
    SignOn,
    SignOnResponse,
    SignOff,
    Error,
}

impl DataFrameType {
    /// The name of the type, as a debug listing writes it.
    pub open spec fn spec_name(self) -> &'static str {
        match self {
            DataFrameType::Msg => "Msg",
            DataFrameType::Connect => "Connect",
            DataFrameType::ConnectResponse => "ConnectResponse",
            DataFrameType::Disconnect => "Disconnect",
            DataFrameType::DisconnectResponse => "DisconnectResponse",
            DataFrameType::SignOn => "SignOn",
            DataFrameType::SignOnResponse => "SignOnResponse",
            DataFrameType::SignOff => "SignOff",
            DataFrameType::Error => "Error",
        }
    }

    pub fn name(&self) -> (r: &'static str)
        ensures
            r == self.spec_name(),
    {
        match self {
            DataFrameType::Msg => "Msg",
            DataFrameType::Connect => "Connect",
            DataFrameType::ConnectResponse => "ConnectResponse",
            DataFrameType::Disconnect => "Disconnect",
            DataFrameType::DisconnectResponse => "DisconnectResponse",
            DataFrameType::SignOn => "SignOn",
            DataFrameType::SignOnResponse => "SignOnResponse",
            DataFrameType::SignOff => "SignOff",
            DataFrameType::Error => "Error",
        }
    }

    pub open spec fn spec_from_repr(value: u16) -> Option<DataFrameType> {
        if value == 0 {
            Some(DataFrameType::Msg)
        } else if value == 1 {
            Some(DataFrameType::Connect)
        } else if value == 2 {
            Some(DataFrameType::ConnectResponse)
        } else if value == 3 {
            Some(DataFrameType::Disconnect)
        } else if value == 4 {
            Some(DataFrameType::DisconnectResponse)
        } else if value == 19 {
            Some(DataFrameType::SignOn)
        } else if value == 6 {
            Some(DataFrameType::SignOnResponse)
        } else if value == 7 {
            Some(DataFrameType::SignOff)
        } else if value == 100 {
            Some(DataFrameType::Error)
        } else {
            None
        }
    }

    pub fn from_repr(value: u16) -> (r: Option<DataFrameType>)
        ensures
            r == Self::spec_from_repr(value),
    {
        match value {
            0 => Some(DataFrameType::Msg),
            1 => Some(DataFrameType::Connect),
            2 => Some(DataFrameType::ConnectResponse),
            3 => Some(DataFrameType::Disconnect),
            4 => Some(DataFrameType::DisconnectResponse),
            19 => Some(DataFrameType::SignOn),
            6 => Some(DataFrameType::SignOnResponse),
            7 => Some(DataFrameType::SignOff),
            100 => Some(DataFrameType::Error),
            _ => None,
        }
    }
}

/// The two path ids every connection-scoped record starts with.
#[derive(Clone, Copy, Debug, PartialEq, Eq)]
pub struct ConnectHeader {
    pub local_path_id: u16,
    pub remote_path_id: u16,
}

/// One sign-on property: its type and its value.
#[derive(Clone, Copy, Debug)]
pub struct SignOnProperty<'a> {
    pub ty: u8,
    pub value: &'a [u8],
}

#[derive(Clone, Debug)]
pub enum DataFrameRequest<'a> {
    Connect { header: ConnectHeader, path: &'a [u8] },
    Disconnect { header: ConnectHeader, reason: u16 },
    SignOn { properties: Vec<SignOnProperty<'a>> },
    SignOff {},
    Msg { header: ConnectHeader, payload: &'a [u8] },
}

/// The properties as types and values.
pub open spec fn properties_view<'a>(v: Seq<SignOnProperty<'a>>) -> Seq<(u8, Seq<u8>)> {
    v.map_values(|p: SignOnProperty<'a>| (p.ty, p.value@))
}

/// A request as plain values.
pub enum DataFrameRequestView {
    Connect { header: ConnectHeader, path: Seq<u8> },
    Disconnect { header: ConnectHeader, reason: u16 },
    SignOn { properties: Seq<(u8, Seq<u8>)> },
    SignOff,
    Msg { header: ConnectHeader, payload: Seq<u8> },
}

impl<'a> View for DataFrameRequest<'a> {
    type V = DataFrameRequestView;

    open spec fn view(&self) -> DataFrameRequestView {
        match self {
            DataFrameRequest::Connect { header, path } => DataFrameRequestView::Connect {
                header: *header,
                path: path@,
            },
            DataFrameRequest::Disconnect { header, reason } => DataFrameRequestView::Disconnect {
                header: *header,
                reason: *reason,
            },
            DataFrameRequest::SignOn { properties } => DataFrameRequestView::SignOn {
                properties: properties_view(properties@),
            },
            DataFrameRequest::SignOff {  } => DataFrameRequestView::SignOff,
            DataFrameRequest::Msg { header, payload } => DataFrameRequestView::Msg {
                header: *header,
                payload: payload@,
            },
        }
    }
}

/// The connect header at `p`.
pub open spec fn spec_connect_header(d: Seq<u8>, p: int) -> ConnectHeader {
    ConnectHeader {
        local_path_id: spec_u16_le(d[p], d[p + 1]),
        remote_path_id: spec_u16_le(d[p + 2], d[p + 3]),
    }
}

/// The sign-on properties from `p` to the end: `<type><u8 length><value>`
/// until the input ends between two properties.
pub open spec fn spec_signon_properties(d: Seq<u8>, p: int) -> Result<Seq<(u8, Seq<u8>)>, FrameErrorView>
    decreases d.len() - p,
{
    if p < 0 || p >= d.len() {
        Ok(Seq::empty())
    } else if p + 2 > d.len() || p + 2 + d[p + 1] > d.len() {
        Err(FrameErrorView::UnexpectedEof)
    } else {
        match spec_signon_properties(d, p + 2 + d[p + 1]) {
            Err(e) => Err(e),
            Ok(rest) => Ok(seq![(d[p], d.subrange(p + 2, p + 2 + d[p + 1]))] + rest),
        }
    }
}

/// What a data frame body `d` is read as.
pub open spec fn spec_parse_request(d: Seq<u8>) -> Result<DataFrameRequestView, FrameErrorView> {
    if d.len() < 2 {
        Err(FrameErrorView::UnexpectedEof)
    } else {
        match DataFrameType::spec_from_repr(spec_u16_le(d[0], d[1])) {
            None => Err(invalid("unknown data frame type "@ + spec_decimal(spec_u16_le(d[0], d[1]) as nat))),
            Some(DataFrameType::Connect) => {
                if d.len() < 7 || d.len() < 7 + d[6] {
                    Err(FrameErrorView::UnexpectedEof)
                } else {
                    Ok(
                        DataFrameRequestView::Connect {
                            header: spec_connect_header(d, 2),
                            path: d.subrange(7, 7 + d[6]),
                        },
                    )
                }
            },
            Some(DataFrameType::Disconnect) => {
                if d.len() < 8 {
                    Err(FrameErrorView::UnexpectedEof)
                } else {
                    Ok(
                        DataFrameRequestView::Disconnect {
                            header: spec_connect_header(d, 2),
                            reason: spec_u16_le(d[6], d[7]),
                        },
                    )
                }
            },
            Some(DataFrameType::SignOn) => match spec_signon_properties(d, 2) {
                Err(e) => Err(e),
                Ok(properties) => Ok(DataFrameRequestView::SignOn { properties }),
            },
            Some(DataFrameType::SignOff) => Ok(DataFrameRequestView::SignOff),
            Some(DataFrameType::Msg) => {
                if d.len() < 6 {
                    Err(FrameErrorView::UnexpectedEof)
                } else {
                    Ok(
                        DataFrameRequestView::Msg {
                            header: spec_connect_header(d, 2),
                            payload: d.subrange(6, d.len() as int),
                        },
                    )
                }
            },
            Some(t) => Err(invalid("unsupported data frame type "@ + t.spec_name()@)),
        }
    }
}

impl<'a> DataFrameRequest<'a> {
    pub fn try_from_slice(data: &'a [u8]) -> (r: Result<Self, FrameError>)
        ensures
            match spec_parse_request(data@) {
                Ok(v) => (r matches Ok(x) && x@ == v),
                Err(e) => err_view(r) == Some(e),
            },
    {
        let mut cursor = Cursor::new(data);
        let ty = cursor.read_u16()?;
        let ty = match DataFrameType::from_repr(ty) {
            Some(ty) => ty,
            None => {
                return Err(FrameError::validation_num("unknown data frame type ", ty as u64));
            },
        };
        match ty {
            DataFrameType::Connect => {
                let header = Self::read_connect_header(&mut cursor)?;
                let path = read_small_slice(&mut cursor)?;
                Ok(Self::Connect { header, path })
            },
            DataFrameType::Disconnect => {
                let header = Self::read_connect_header(&mut cursor)?;
                let reason = cursor.read_u16()?;
                Ok(Self::Disconnect { header, reason })
            },
            DataFrameType::SignOn => {
                let properties = Self::read_signon_properties(&mut cursor)?;
                Ok(Self::SignOn { properties })
            },
            DataFrameType::SignOff => Ok(Self::SignOff {  }),
            DataFrameType::Msg => {
                let header = Self::read_connect_header(&mut cursor)?;
                let payload = cursor.read_remainder();
                Ok(Self::Msg { header, payload })
            },
            _ => {
                let mut reason = String::from_str("unsupported data frame type ");
                reason.append(ty.name());
                Err(FrameError::Validation { reason })
            },
        }
    }

    pub fn read_connect_header(cursor: &mut Cursor<'a>) -> (r: Result<ConnectHeader, FrameError>)
        ensures
            final(cursor).bytes() == old(cursor).bytes(),
            0 <= final(cursor).pos() <= final(cursor).bytes().len(),
            old(cursor).pos() + 4 <= old(cursor).bytes().len() ==> r == Ok::<
                ConnectHeader,
                FrameError,
            >(spec_connect_header(old(cursor).bytes(), old(cursor).pos())) && final(cursor).pos()
                == old(cursor).pos() + 4,
            old(cursor).pos() + 4 > old(cursor).bytes().len() ==> r == Err::<
                ConnectHeader,
                FrameError,
            >(FrameError::UnexpectedEof),
    {
        let local_path_id = cursor.read_u16()?;
        let remote_path_id = cursor.read_u16()?;
        Ok(ConnectHeader { local_path_id, remote_path_id })
    }

    /// Reads properties until the input ends between two of them.
    pub fn read_signon_properties(cursor: &mut Cursor<'a>) -> (r: Result<
        Vec<SignOnProperty<'a>>,
        FrameError,
    >)
        ensures
            match spec_signon_properties(old(cursor).bytes(), old(cursor).pos()) {
                Ok(ps) => (r matches Ok(v) && properties_view(v@)
                    == ps),
                Err(e) => err_view(r) == Some(e),
            },
    {
        let _ = cursor.position();
        let ghost d = cursor.bytes();
        let ghost p0 = cursor.pos();
        let mut properties: Vec<SignOnProperty<'a>> = Vec::with_capacity(6);
        loop
            invariant
                cursor.bytes() == d,
                d == old(cursor).bytes(),
                p0 == old(cursor).pos(),
                0 <= cursor.pos() <= d.len(),
                0 <= p0 <= d.len(),
                match spec_signon_properties(d, p0) {
                    Ok(all) => (spec_signon_properties(d, cursor.pos()) matches Ok(rest) && all
                        == properties_view(properties@)
                        + rest),
                    Err(e) => spec_signon_properties(d, cursor.pos()) == Err::<
                        Seq<(u8, Seq<u8>)>,
                        FrameErrorView,
                    >(e),
                },
            decreases d.len() - cursor.pos(),
        {
            let ghost p = cursor.pos();
            if cursor.is_empty() {
                proof {
                    assert(properties_view(properties@)
                        + Seq::<(u8, Seq<u8>)>::empty() =~= properties_view(properties@));
                }
                return Ok(properties);
            }
            let ty = cursor.read_u8()?;
            let value = match read_small_slice(cursor) {
                Ok(value) => value,
                Err(e) => {
                    assert(spec_signon_properties(d, p) == Err::<Seq<(u8, Seq<u8>)>, FrameErrorView>(e@));
                    return Err(e);
                },
            };
            let ghost old_props = properties@;
            properties.push(SignOnProperty { ty, value });
            proof {
                assert(properties_view(properties@) =~= properties_view(old_props).push((ty, value@)));
                if let Ok(all) = spec_signon_properties(d, p0) {
                    let rest = spec_signon_properties(d, cursor.pos())->Ok_0;
                    assert(spec_signon_properties(d, p) == Ok::<Seq<(u8, Seq<u8>)>, FrameErrorView>(
                        seq![(ty, value@)] + rest,
                    ));
                    assert(all =~= properties_view(properties@) + rest);
                }
            }
        }
    }
}

#[derive(Clone, Debug)]
pub enum DataFrameResponse<'a> {
    Connect { header: ConnectHeader, status: u16 },
    Disconnect { header: ConnectHeader },
    SignOn { status: u16, server_name: &'a [u8] },
    /// Borrowed rather than owned so a caller can serialize the VIPC message
    /// into a reused buffer and hand it straight over.
    Msg { header: ConnectHeader, payload: &'a [u8] },
}

/// The bytes of a connect header.
pub open spec fn spec_connect_header_bytes(h: ConnectHeader) -> Seq<u8> {
    spec_u16_le_bytes(h.local_path_id) + spec_u16_le_bytes(h.remote_path_id)
}

/// The type word a response is sent with.
pub open spec fn spec_response_repr(r: DataFrameResponse) -> u16 {
    match r {
        DataFrameResponse::Connect { .. } => 2,
        DataFrameResponse::Disconnect { .. } => 4,
        DataFrameResponse::SignOn { .. } => 6,
        DataFrameResponse::Msg { .. } => 0,
    }
}

/// Each response carries the type code of the response to its request: the
/// type a reader decodes from a written response is the response type that
/// answers the request it replies to.
pub proof fn lemma_response_types(r: DataFrameResponse)
    ensures
        DataFrameType::spec_from_repr(spec_response_repr(r)) == Some(
            match r {
                DataFrameResponse::Connect { .. } => DataFrameType::ConnectResponse,
                DataFrameResponse::Disconnect { .. } => DataFrameType::DisconnectResponse,
                DataFrameResponse::SignOn { .. } => DataFrameType::SignOnResponse,
                DataFrameResponse::Msg { .. } => DataFrameType::Msg,
            },
        ),
{
}

/// The wire form of a response whose fields all fit.
pub open spec fn spec_response_bytes(r: DataFrameResponse) -> Seq<u8> {
    spec_u16_le_bytes(spec_response_repr(r)) + match r {
        DataFrameResponse::Connect { header, status } => spec_connect_header_bytes(header)
            + spec_u16_le_bytes(status),
        DataFrameResponse::Disconnect { header } => spec_connect_header_bytes(header),
        DataFrameResponse::SignOn { status, server_name } => spec_u16_le_bytes(status) + seq![
            server_name@.len() as u8,
        ] + server_name@,
        DataFrameResponse::Msg { header, payload } => spec_connect_header_bytes(header)
            + payload@,
    }
}

impl<'a> DataFrameResponse<'a> {
    /// Appends the wire form. Only a server name longer than its one-byte
    /// length prefix can describe is refused.
    pub fn write_into(&self, dst: &mut Vec<u8>) -> (r: Result<(), FrameError>)
        ensures
            (self matches DataFrameResponse::SignOn { server_name, .. } && server_name@.len()
                > 255) ==> r is Err,
            !(self matches DataFrameResponse::SignOn { server_name, .. } && server_name@.len()
                > 255) ==> r is Ok && final(dst)@ == old(dst)@ + spec_response_bytes(*self),
    {
        let ghost start = dst@;
        push_u16(dst, self.to_repr());
        match self {
            Self::Connect { header, status } => {
                Self::write_connect_header(dst, header);
                push_u16(dst, *status);
            },
            Self::Disconnect { header } => {
                Self::write_connect_header(dst, header);
            },
            Self::SignOn { status, server_name } => {
                push_u16(dst, *status);
                Self::write_nslice(dst, server_name)?;
            },
            Self::Msg { header, payload } => {
                Self::write_connect_header(dst, header);
                push_all(dst, payload);
            },
        }
        assert(dst@ =~= start + spec_response_bytes(*self));
        Ok(())
    }

    pub fn to_repr(&self) -> (r: u16)
        ensures
            r == spec_response_repr(*self),
    {
        match self {
            Self::Connect { .. } => 2,
            Self::Disconnect { .. } => 4,
            Self::SignOn { .. } => 6,
            Self::Msg { .. } => 0,
        }
    }

    pub fn write_connect_header(dst: &mut Vec<u8>, header: &ConnectHeader)
        ensures
            final(dst)@ == old(dst)@ + spec_connect_header_bytes(*header),
    {
        let ghost start = dst@;
        push_u16(dst, header.local_path_id);
        push_u16(dst, header.remote_path_id);
        assert(dst@ =~= start + spec_connect_header_bytes(*header));
    }

    /// The length is checked rather than truncated: a silently shortened prefix
    /// would desynchronize the client's parser instead of failing here.
    pub fn write_nslice(dst: &mut Vec<u8>, value: &[u8]) -> (r: Result<(), FrameError>)
        ensures
            value@.len() <= 255 ==> r is Ok && final(dst)@ == old(dst)@ + seq![
                value@.len() as u8,
            ] + value@,
            value@.len() > 255 ==> r is Err && final(dst)@ == old(dst)@,
    {
        let length = u8_len(value.len(), "data frame slice")?;
        let ghost start = dst@;
        dst.push(length);
        push_all(dst, value);
        assert(dst@ =~= start + seq![value@.len() as u8] + value@);
        Ok(())
    }
}

} // verus!
