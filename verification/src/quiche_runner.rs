//! How the QUIC server of the second backend is set up.

use crate::config::CongestionControl;
use vstd::prelude::*;

verus! {

/// The settings of the QUIC server.
#[derive(Debug)]
pub struct QuicheSettings {
    /// The protocols that are negotiated.
    pub alpn: Vec<Vec<u8>>,
    /// The name of the congestion control algorithm.
    pub cc_algorithm: &'static str,
}

/// The name of a congestion control algorithm.
pub open spec fn cc_name(cc: CongestionControl) -> Seq<char> {
    match cc {
        CongestionControl::Bbr => "bbr2_gcongestion"@,
        CongestionControl::Cubic => "cubic"@,
        CongestionControl::NewReno => "reno"@,
    }
}

/// The settings of the QUIC server: the protocol `h3` and nothing else, and the algorithm asked
/// for.
pub fn make_quiche_settings(cc: &CongestionControl) -> (r: QuicheSettings)
    ensures
        r.alpn@.len() == 1 && r.alpn@[0]@ == seq![104u8, 51u8],
        r.cc_algorithm@ == cc_name(*cc),
{
    let mut h3: Vec<u8> = Vec::new();
    h3.push(104);
    h3.push(51);
    assert(h3@ =~= seq![104u8, 51u8]);
    let mut alpn: Vec<Vec<u8>> = Vec::new();
    alpn.push(h3);
    QuicheSettings {
        alpn,
        cc_algorithm: match cc {
            CongestionControl::Bbr => "bbr2_gcongestion",
            CongestionControl::Cubic => "cubic",
            CongestionControl::NewReno => "reno",
        },
    }
}

} // verus!
