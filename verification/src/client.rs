//! The client side: an untrusted relay between enclave and SP.
//!
//! The client contributes nothing cryptographic. It learns the
//! platform's group id from the quoting service, forwards the
//! enclave's `g_a` in MSG1, has the quoting service turn the enclave's
//! report into a quote, and assembles MSG3 from the enclave's MAC.
//! The socket and quoting-service plumbing live in the embedding
//! program; this context holds the message logic.

use vstd::prelude::*;

use crate::cmac::MacTag;
use crate::error::ClientRaError;
use crate::key_exchange::DHKEPublicKey;
use crate::msg::{Gid, Quote, RaMsg0, RaMsg1, RaMsg3, RaMsg4};
use crate::wire::copy_bytes;

verus! {

/// The client-side attestation context.
pub struct ClientRaContext {
    gid: Gid,
    g_a: Option<DHKEPublicKey>,
}

impl ClientRaContext {
    pub closed spec fn gid_view(&self) -> Seq<u8> {
        self.gid@
    }

    pub closed spec fn g_a_view(&self) -> Option<Seq<u8>> {
        match self.g_a {
            Some(ref v) => Some(v@),
            None => None,
        }
    }

    pub closed spec fn wf(&self) -> bool {
        &&& self.gid@.len() == 4
        &&& match self.g_a {
            Some(ref v) => v@.len() == 65,
            None => true,
        }
    }

    /// Build the context from the platform's EPID group id, as the
    /// quoting service reports it.
    pub fn new(gid: Gid) -> (r: Self)
        requires
            gid@.len() == 4,
        ensures
            r.wf(),
            r.gid_view() == gid@,
            r.g_a_view() is None,
    {
        Self { gid, g_a: None }
    }

    /// Extended EPID group 0 selects IAS-based attestation, the only
    /// supported mode.
    pub fn get_extended_epid_group_id(&self) -> (r: RaMsg0)
        ensures
            r.exgid == 0,
    {
        RaMsg0 { exgid: 0 }
    }

    /// MSG1 carries the platform group id and the enclave's `g_a`,
    /// which is remembered for MSG3.
    pub fn get_msg_1(&mut self, g_a: DHKEPublicKey) -> (r: RaMsg1)
        requires
            old(self).wf(),
            g_a@.len() == 65,
        ensures
            r.wf(),
            r.gid@ == old(self).gid_view(),
            r.g_a@ == g_a@,
            final(self).wf(),
            final(self).gid_view() == old(self).gid_view(),
            final(self).g_a_view() == Some(g_a@),
    {
        let g_a_copy = copy_bytes(g_a.as_slice(), 0, g_a.len());
        proof {
            assert(g_a@.subrange(0, g_a@.len() as int) =~= g_a@);
        }
        self.g_a = Some(g_a_copy);
        let gid = copy_bytes(self.gid.as_slice(), 0, self.gid.len());
        proof {
            assert(self.gid@.subrange(0, self.gid@.len() as int) =~= self.gid@);
        }
        RaMsg1 { gid, g_a }
    }

    /// Assemble MSG3 once the enclave has returned its MAC over the
    /// quote: the remembered `g_a`, the MAC, no platform descriptor,
    /// and the quote. The remembered key is consumed.
    pub fn process_msg_2(&mut self, mac: MacTag, quote: Quote) -> (r: Result<
        RaMsg3,
        ClientRaError,
    >)
        requires
            old(self).wf(),
            old(self).g_a_view() is Some,
            mac@.len() == 16,
            quote@.len() == 1116,
        ensures
            match r {
                Ok(m3) => {
                    &&& m3.wf()
                    &&& m3.g_a@ == old(self).g_a_view().unwrap()
                    &&& m3.mac@ == mac@
                    &&& m3.ps_sec_prop is None
                    &&& m3.quote@ == quote@
                    &&& final(self).wf()
                    &&& final(self).g_a_view() is None
                },
                Err(_) => false,
            },
    {
        let g_a = match self.g_a.take() {
            Some(v) => v,
            None => {
                return Err(ClientRaError::EnclaveNotTrusted);
            },
        };
        Ok(RaMsg3 { mac, g_a, ps_sec_prop: None, quote })
    }

    /// The relay also reads the trust decision: an untrusted enclave or
    /// platform-services manifest ends the exchange.
    pub fn check_msg4(&self, msg4: &RaMsg4) -> (r: Result<(), ClientRaError>)
        ensures
            match r {
                Ok(()) => msg4.is_enclave_trusted && msg4.is_pse_manifest_trusted != Some(false),
                Err(ClientRaError::EnclaveNotTrusted) => !msg4.is_enclave_trusted,
                Err(ClientRaError::PseNotTrusted) => msg4.is_enclave_trusted
                    && msg4.is_pse_manifest_trusted == Some(false),
            },
    {
        if !msg4.is_enclave_trusted {
            return Err(ClientRaError::EnclaveNotTrusted);
        }
        match msg4.is_pse_manifest_trusted {
            Some(false) => Err(ClientRaError::PseNotTrusted),
            _ => Ok(()),
        }
    }
}

} // verus!
