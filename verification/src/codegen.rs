//! The decisions of service code generation that do not depend on how tokens
//! are assembled: a service's qualified name, the text of doc comments, and
//! the shape of each method.

use vstd::prelude::*;
use vstd::string::*;

verus! {

/// A service's fully-qualified name: `package.Service`, or just the service
/// name for a service outside any package.
pub open spec fn qualified_name(package: Seq<char>, proto_name: Seq<char>) -> Seq<char> {
    if package.len() == 0 {
        proto_name
    } else {
        package + seq!['.'] + proto_name
    }
}

/// The fully-qualified name of a service.
pub fn service_name(package: &str, proto_name: &str) -> (r: String)
    ensures
        r@ == qualified_name(package@, proto_name@),
{
    if package.is_empty() {
        proto_name.to_owned()
    } else {
        let dot = ".";
        proof {
            reveal_strlit(".");
        }
        let mut name = package.to_owned();
        name.append(dot);
        name.append(proto_name);
        assert(name@ =~= qualified_name(package@, proto_name@));
        name
    }
}

/// The text of a doc attribute for one comment line: the line as it is when
/// it starts with a space, else the line after one space.
pub open spec fn doc_text(line: Seq<char>) -> Seq<char> {
    if line.len() > 0 && line[0] == ' ' {
        line
    } else {
        seq![' '] + line
    }
}

/// The text of the doc attribute generated for one comment line.
pub fn doc_comment_text(line: &str) -> (r: String)
    ensures
        r@ == doc_text(line@),
{
    if line.unicode_len() > 0 && line.get_char(0) == ' ' {
        line.to_owned()
    } else {
        let space = " ";
        proof {
            reveal_strlit(" ");
        }
        let mut text = space.to_owned();
        text.append(line);
        assert(text@ =~= doc_text(line@));
        text
    }
}

/// The four shapes of an RPC method.
#[derive(Clone, Copy, Debug, PartialEq, Eq, Structural)]
pub enum MethodShape {
    /// One request, one response.
    Unary,
    /// One request, a stream of responses.
    ServerStreaming,
    /// A stream of requests, one response.
    ClientStreaming,
    /// Streams both ways.
    Bidi,
}

/// The shape of a method from whether each side streams.
pub fn method_shape(client_streaming: bool, server_streaming: bool) -> (r: MethodShape)
    ensures
        r == (match (client_streaming, server_streaming) {
            (false, false) => MethodShape::Unary,
            (false, true) => MethodShape::ServerStreaming,
            (true, false) => MethodShape::ClientStreaming,
            (true, true) => MethodShape::Bidi,
        }),
{
    match (client_streaming, server_streaming) {
        (false, false) => MethodShape::Unary,
        (false, true) => MethodShape::ServerStreaming,
        (true, false) => MethodShape::ClientStreaming,
        (true, true) => MethodShape::Bidi,
    }
}

} // verus!
