//! What failures of a request tell.

use crate::http;
use crate::http::TransportFault;
use crate::language_model::error::ModelErrorView;
use crate::text;
use crate::text_laws;
use vstd::prelude::*;

verus! {

/// The words of an error, where it has any.
pub open spec fn words(e: ModelErrorView) -> Seq<char> {
    match e {
        ModelErrorView::InvalidRequest(m) => m,
        ModelErrorView::Auth(m) => m,
        ModelErrorView::RateLimit { message, .. } => message,
        ModelErrorView::ContextLengthExceeded(m) => m,
        ModelErrorView::Provider(m) => m,
        ModelErrorView::Transport(m) => m,
        ModelErrorView::Cancelled => Seq::empty(),
        ModelErrorView::Other(m) => m,
    }
}

/// The kind of error goes by the status alone. What the provider said is in the error, whatever the
/// status: as it is where the status has a kind of its own, and behind the status where it has not.
pub proof fn law_failures(status: u16, retry_after: Option<Seq<char>>, body: Seq<char>)
    ensures
        ({
            let e = http::http_error(status, retry_after, body);
            &&& e is Auth <==> status == 401 || status == 403
            &&& e is RateLimit <==> status == 429
            &&& e is ContextLengthExceeded <==> status == 413
            &&& e is InvalidRequest <==> status == 400
            &&& e is Transport <==> status == 408
            &&& e is Provider <==> 500 <= status <= 599
            &&& e !is Cancelled
            &&& if e is Transport || e is Provider || e is Other {
                words(e) == "HTTP "@ + text::decimal_text(status as nat) + ": "@ + body
            } else {
                words(e) == body
            }
            &&& e matches ModelErrorView::RateLimit { retry_after_ms, .. } ==> retry_after_ms
                == http::retry_after_ms(retry_after)
        }),
{
    reveal_strlit("HTTP 408: ");
    reveal_strlit("HTTP ");
    reveal_strlit(": ");
    assert(text::decimal_text(4) =~= seq!['4']);
    assert(text::decimal_text(40) =~= seq!['4', '0']);
    assert(text::decimal_text(408) =~= seq!['4', '0', '8']);
    assert("HTTP 408: "@ + body =~= "HTTP "@ + text::decimal_text(408) + ": "@ + body);
}

/// A wait is told in whole seconds, which white space may surround, and comes out in milliseconds, up
/// to the largest number.
pub proof fn law_waits(before: Seq<char>, zeros: nat, secs: u64, plus: bool, after: Seq<char>)
    requires
        text_laws::blank(before),
        text_laws::blank(after),
    ensures
        http::retry_after_ms(
            Some(before + text_laws::text_with_zeros(zeros, secs, plus) + after),
        ) == Some(
            if secs * 1000 <= u64::MAX {
                (secs * 1000) as u64
            } else {
                u64::MAX
            },
        ),
{
    let s = text_laws::text_with_zeros(zeros, secs, plus);
    text_laws::law_leading_zeros(zeros, secs, plus);
    text_laws::law_numbers(secs);
    let t = text::decimal_text(secs as nat);
    assert(text_laws::tight(s)) by {
        assert(s.last() == t.last());
        assert(text::digit_value(t[0]) is Some);
        assert(text::digit_value(t[t.len() - 1]) is Some);
        if !plus && zeros == 0 {
            assert(s[0] == t[0]);
        }
    }
    text_laws::law_trimming(before, s, after);
}

/// Where nothing else tells a wait, there is none.
pub proof fn law_no_wait(value: Option<Seq<char>>)
    ensures
        http::retry_after_ms(value) is Some ==> exists|zeros: nat, secs: u64, plus: bool|
            text::trimmed(value->0) == #[trigger] text_laws::text_with_zeros(zeros, secs, plus),
        value is None ==> http::retry_after_ms(value) is None,
{
    if value is Some {
        text_laws::law_spelled(text::trimmed(value->0));
    }
}

/// A connection that fails is an error of the transport, and the error says how and why.
pub proof fn law_connections(fault: TransportFault, message: Seq<char>)
    ensures
        ({
            let e = http::transport_error(fault, message);
            &&& e is Transport
            &&& fault == TransportFault::Timeout ==> words(e) == "timeout: "@ + message
            &&& fault == TransportFault::Connect ==> words(e) == "connect: "@ + message
            &&& fault == TransportFault::Other ==> words(e) == message
        }),
{
}

} // verus!
