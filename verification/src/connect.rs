//! The transport selector: for a peer descriptor, TCP is attempted first and
//! a BLE L2CAP channel is the fallback. This module makes the decisions and
//! builds the dial string; the dialing itself happens outside.
use vstd::prelude::*;

use crate::errors::ConnectErrors;
use crate::messages::{DeviceConnectionInfo, TcpConnectionInfo};

verus! {

/// Decimal digits of `n`, most significant first.
pub open spec fn dec_rep(n: nat) -> Seq<u8>
    decreases n,
{
    if n < 10 {
        seq![(48 + n) as u8]
    } else {
        dec_rep(n / 10) + seq![(48 + n % 10) as u8]
    }
}

/// Render `n` in decimal.
pub fn format_u32(n: u32) -> (r: Vec<u8>)
    ensures
        r@ == dec_rep(n as nat),
    decreases n,
{
    if n < 10 {
        let mut out: Vec<u8> = Vec::new();
        out.push(48 + n as u8);
        assert(out@ =~= dec_rep(n as nat));
        out
    } else {
        let mut out = format_u32(n / 10);
        out.push(48 + (n % 10) as u8);
        assert(n as nat / 10 == (n / 10) as nat);
        assert(out@ =~= dec_rep(n as nat));
        out
    }
}

/// The `host:port` string the selector resolves and dials.
pub open spec fn socket_string(hostname: Seq<u8>, port: u32) -> Seq<u8> {
    hostname + seq![58u8] + dec_rep(port as nat)
}

/// Copy a byte vector.
pub fn clone_bytes(v: &Vec<u8>) -> (r: Vec<u8>)
    ensures
        r@ == v@,
{
    vstd::slice::slice_to_vec(v.as_slice())
}

/// First selector step: the TCP dial plan. With TCP details present the
/// result is the `host:port` string to resolve (the advertised port overrides
/// the resolved one); without them the TCP path fails right away.
pub fn plan_tcp(info: &DeviceConnectionInfo) -> (r: Result<(Vec<u8>, u32), ConnectErrors>)
    ensures
        match r {
            Ok(p) => {
                &&& info.tcp matches Some(t) && p.0@ == socket_string(t.hostname@, t.port)
                    && p.1 == t.port
            },
            Err(e) => info.tcp is None && e is FailedToGetTcpDetails,
        },
{
    match &info.tcp {
        None => Err(ConnectErrors::FailedToGetTcpDetails),
        Some(t) => {
            let mut s = clone_bytes(&t.hostname);
            s.push(58);
            let digits = format_u32(t.port);
            crate::messages::append_bytes(&mut s, digits.as_slice());
            assert(s@ =~= socket_string(t.hostname@, t.port));
            Ok((s, t.port))
        },
    }
}

/// Fallback selector step: the BLE dial plan. It needs BLE details in the
/// descriptor and a registered L2CAP client; the errors say which is missing.
pub fn plan_ble(info: &DeviceConnectionInfo, has_l2cap_client: bool) -> (r: Result<
    (Vec<u8>, u32),
    ConnectErrors,
>)
    ensures
        match r {
            Ok(p) => {
                &&& has_l2cap_client
                &&& info.ble matches Some(b) && p.0@ == b.uuid@ && p.1 == b.psm
            },
            Err(e) => (info.ble is None && e is FailedToGetBleDetails) || (info.ble is Some
                && !has_l2cap_client && e is InternalBleHandlerNotAvailable),
        },
{
    match &info.ble {
        None => Err(ConnectErrors::FailedToGetBleDetails),
        Some(b) => {
            if !has_l2cap_client {
                Err(ConnectErrors::InternalBleHandlerNotAvailable)
            } else {
                Ok((clone_bytes(&b.uuid), b.psm))
            }
        },
    }
}

} // verus!

verus! {

/// What the selector does next for a peer descriptor.
pub enum ConnectStep {
    DialTcp { socket: Vec<u8>, port: u32 },
    OpenBle { uuid: Vec<u8>, psm: u32 },
    GiveUp { error: ConnectErrors },
}

/// One selector step, fixing the medium order of the transport selection:
/// while TCP has not been tried and failed, TCP details are dialed first;
/// only then (or without TCP details) comes the BLE L2CAP fallback, and when
/// neither can be tried the step says which piece was missing.
pub fn next_transport(
    info: &DeviceConnectionInfo,
    tcp_failed: bool,
    has_l2cap_client: bool,
) -> (r: ConnectStep)
    ensures
        match r {
            ConnectStep::DialTcp { socket, port } => {
                &&& !tcp_failed
                &&& info.tcp matches Some(t) && socket@ == socket_string(t.hostname@, t.port)
                    && port == t.port
            },
            ConnectStep::OpenBle { uuid, psm } => {
                &&& tcp_failed || info.tcp is None
                &&& has_l2cap_client
                &&& info.ble matches Some(b) && uuid@ == b.uuid@ && psm == b.psm
            },
            ConnectStep::GiveUp { error } => {
                &&& tcp_failed || info.tcp is None
                &&& (info.ble is None && error is FailedToGetBleDetails) || (info.ble is Some
                    && !has_l2cap_client && error is InternalBleHandlerNotAvailable)
            },
        },
{
    if !tcp_failed {
        match plan_tcp(info) {
            Ok((socket, port)) => {
                return ConnectStep::DialTcp { socket, port };
            },
            Err(_) => {},
        }
    }
    match plan_ble(info, has_l2cap_client) {
        Ok((uuid, psm)) => ConnectStep::OpenBle { uuid, psm },
        Err(error) => ConnectStep::GiveUp { error },
    }
}

} // verus!
