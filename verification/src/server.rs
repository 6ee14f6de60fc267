//! A queried server and the derived representations of its message text.
//!
//! The server record carries the address it was reached under and the two
//! renderings of its message of the day. The message arrives either as an
//! already-structured sequence of styled runs or as a single legacy-formatted
//! string; the latter is routed through the decoder first.

use vstd::prelude::*;

use crate::decode::decode;
use crate::decode::spec_decode;
use crate::render::plain_concat;
use crate::render::render;
use crate::render::render_html;
use crate::style::DecodeError;
use crate::style::StyledRun;

verus! {

/// The name under which a server's service-location record is looked up:
/// the fixed service and protocol labels prefixed to the server's address.
pub open spec fn spec_srv_lookup_name(address: Seq<char>) -> Seq<char> {
    "_minecraft._tcp."@ + address
}

/// Builds the service-location lookup name for a server address. The
/// network query itself is a collaborator's concern and happens elsewhere.
pub fn srv_lookup_name(address: &str) -> (r: String)
    ensures
        r@ == spec_srv_lookup_name(address@),
{
    let mut name = String::from_str("_minecraft._tcp.");
    name.append(address);
    name
}

/// A server together with the rendered forms of its message of the day.
#[derive(Debug)]
pub struct Server {
    pub address: String,
    pub port: Option<u16>,
    pub clean_motd: String,
    pub html_motd: String,
}

impl Server {
    /// Renders an already-structured sequence of styled runs into this
    /// server's HTML and plain message fields.
    pub fn process_motd(&mut self, components: &Vec<StyledRun>)
        ensures
            final(self).html_motd@ == render_html(components.deep_view()),
            final(self).clean_motd@ == plain_concat(components.deep_view()),
            final(self).address == old(self).address,
            final(self).port == old(self).port,
    {
        let r = render(components);
        self.html_motd = r.html;
        self.clean_motd = r.plain;
    }

    /// Decodes a legacy-formatted message and renders the resulting runs into
    /// this server's HTML and plain message fields. On malformed input the
    /// decoder's error is returned and the server is left unchanged.
    pub fn process_legacy_motd(&mut self, text: &str) -> (r: Result<(), DecodeError>)
        ensures
            r is Ok <==> spec_decode(text@) is Ok,
            r is Ok ==> final(self).html_motd@ == render_html(spec_decode(text@)->Ok_0),
            r is Ok ==> final(self).clean_motd@ == plain_concat(spec_decode(text@)->Ok_0),
            r is Err ==> r->Err_0 == spec_decode(text@)->Err_0 && *final(self) == *old(self),
            final(self).address == old(self).address,
            final(self).port == old(self).port,
    {
        match decode(text) {
            Ok(runs) => {
                self.process_motd(&runs);
                Ok(())
            },
            Err(e) => Err(e),
        }
    }
}

} // verus!
