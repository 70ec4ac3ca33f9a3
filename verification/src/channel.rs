//! The channels of a functionality, named after the functionality.
//!
//! A call never consults the directory: provider and consumer meet on the
//! channels whose names both derive from the name of the functionality.

use vstd::prelude::*;
use vstd::string::StringExecFns;

verus! {

/// Name of the channel that carries the requests of the functionality `name`.
pub open spec fn request_channel_name(name: Seq<char>) -> Seq<char> {
    name + "_request"@
}

/// Name of the channel that carries the responses of the functionality `name`.
pub open spec fn response_channel_name(name: Seq<char>) -> Seq<char> {
    name + "_response"@
}

/// Name of the channel that carries the samples of the streaming
/// functionality `name`.
pub open spec fn stream_channel_name(name: Seq<char>) -> Seq<char> {
    name + "_continuous"@
}

/// The channel pair of a functionality that answers requests.
#[derive(Debug)]
pub struct ChannelPair {
    pub request: String,
    pub response: String,
}

/// The channel pair bound to the functionality `name`.
pub fn channel_pair(name: &str) -> (pair: ChannelPair)
    ensures
        pair.request@ == request_channel_name(name@),
        pair.response@ == response_channel_name(name@),
{
    ChannelPair {
        request: name.to_owned().concat("_request"),
        response: name.to_owned().concat("_response"),
    }
}

/// The channel of the streaming functionality `name`.
pub fn stream_channel(name: &str) -> (channel: String)
    ensures
        channel@ == stream_channel_name(name@),
{
    name.to_owned().concat("_continuous")
}

/// Requests, responses and streams never share a channel, of one
/// functionality or of several, whatever the functionalities are called.
pub proof fn lemma_channel_kinds_differ(first: Seq<char>, second: Seq<char>)
    ensures
        request_channel_name(first) != response_channel_name(second),
        request_channel_name(first) != stream_channel_name(second),
        response_channel_name(first) != stream_channel_name(second),
{
    reveal_strlit("_request");
    reveal_strlit("_response");
    reveal_strlit("_continuous");
    let request = request_channel_name(first);
    let response = response_channel_name(first);
    let answer = response_channel_name(second);
    let stream = stream_channel_name(second);
    assert(request[request.len() - 1] == 't');
    assert(response[response.len() - 1] == 'e');
    assert(answer[answer.len() - 1] == 'e');
    assert(stream[stream.len() - 1] == 's');
}

/// Functionalities of different names get different channels.
pub proof fn lemma_channel_names_tell_functionalities_apart(first: Seq<char>, second: Seq<char>)
    requires
        first != second,
    ensures
        request_channel_name(first) != request_channel_name(second),
        response_channel_name(first) != response_channel_name(second),
        stream_channel_name(first) != stream_channel_name(second),
{
    if request_channel_name(first) == request_channel_name(second) {
        assert(first =~= request_channel_name(first).subrange(0, first.len() as int));
        assert(second =~= request_channel_name(second).subrange(0, second.len() as int));
        assert(first.len() == second.len());
    }
    if response_channel_name(first) == response_channel_name(second) {
        assert(first =~= response_channel_name(first).subrange(0, first.len() as int));
        assert(second =~= response_channel_name(second).subrange(0, second.len() as int));
        assert(first.len() == second.len());
    }
    if stream_channel_name(first) == stream_channel_name(second) {
        assert(first =~= stream_channel_name(first).subrange(0, first.len() as int));
        assert(second =~= stream_channel_name(second).subrange(0, second.len() as int));
        assert(first.len() == second.len());
    }
}

} // verus!
