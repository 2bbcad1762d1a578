//! Plain data of the client-side view of the protocol: positions,
//! sizes, orientations, error kinds, and the default socket path.

use crate::decimal::{dec_str_int, push_dec_i64, string_eq_lit};
use vstd::prelude::*;

verus! {

/// Where the controller listens unless told otherwise.
pub const DEFAULT_SOCKET_PATH: &'static str = "/tmp/weston-ivi-controller.sock";

/// A screen position.
#[derive(Debug, Clone, Copy, PartialEq, Eq, Structural)]
pub struct Position {
    /// Horizontal coordinate; negative places off-screen.
    pub x: i32,
    /// Vertical coordinate.
    pub y: i32,
}

/// The text of a position: `(x, y)`.
pub open spec fn position_text(p: Position) -> Seq<char> {
    "("@ + dec_str_int(p.x as int) + ", "@ + dec_str_int(p.y as int) + ")"@
}

impl Position {
    /// Render the position as `(x, y)`.
    pub fn to_text(&self) -> (r: String)
        ensures
            r@ == position_text(*self),
    {
        let mut out = String::new();
        out.append("(");
        push_dec_i64(self.x as i64, &mut out);
        out.append(", ");
        push_dec_i64(self.y as i64, &mut out);
        out.append(")");
        out
    }
}

/// A width and height in pixels.
#[derive(Debug, Clone, Copy, PartialEq, Eq, Structural)]
pub struct Size {
    /// Width in pixels.
    pub width: u32,
    /// Height in pixels.
    pub height: u32,
}

/// The text of a size: `widthxheight`.
pub open spec fn size_text(s: Size) -> Seq<char> {
    dec_str_int(s.width as int) + "x"@ + dec_str_int(s.height as int)
}

impl Size {
    /// Render the size as `widthxheight`.
    pub fn to_text(&self) -> (r: String)
        ensures
            r@ == size_text(*self),
    {
        let mut out = String::new();
        push_dec_i64(self.width as i64, &mut out);
        out.append("x");
        push_dec_i64(self.height as i64, &mut out);
        out
    }
}

/// A size as the C-compatible interface carries it, signed.
#[derive(Debug, Clone, Copy, PartialEq, Eq, Structural)]
pub struct IviSize {
    /// Width in pixels.
    pub width: i32,
    /// Height in pixels.
    pub height: i32,
}

/// A rectangle as the C-compatible interface carries it.
#[derive(Debug, Clone, Copy, PartialEq, Eq, Structural)]
pub struct IviRectangle {
    /// Horizontal origin.
    pub x: i32,
    /// Vertical origin.
    pub y: i32,
    /// Width in pixels.
    pub width: i32,
    /// Height in pixels.
    pub height: i32,
}

/// The error kinds the C-compatible interface reports, each with a
/// stable code.
#[derive(Debug, Clone, Copy, PartialEq, Eq, Structural)]
pub enum IviErrorCode {
    /// The operation succeeded.
    Success,
    /// Connecting to the controller failed.
    ConnectionFailed,
    /// The request was answered with an error.
    RequestFailed,
    /// Encoding a request failed.
    Serialization,
    /// Decoding a response failed.
    Deserialization,
    /// Reading or writing the socket failed.
    Io,
    /// A parameter was unusable, a null pointer among them.
    InvalidParam,
}

impl IviErrorCode {
    /// The numeric code handed across the C interface.
    pub fn code(&self) -> (r: i32)
        ensures
            r == match *self {
                IviErrorCode::Success => 0,
                IviErrorCode::ConnectionFailed => -1,
                IviErrorCode::RequestFailed => -2,
                IviErrorCode::Serialization => -3,
                IviErrorCode::Deserialization => -4,
                IviErrorCode::Io => -5,
                IviErrorCode::InvalidParam => -6,
            },
    {
        match self {
            IviErrorCode::Success => 0,
            IviErrorCode::ConnectionFailed => -1,
            IviErrorCode::RequestFailed => -2,
            IviErrorCode::Serialization => -3,
            IviErrorCode::Deserialization => -4,
            IviErrorCode::Io => -5,
            IviErrorCode::InvalidParam => -6,
        }
    }
}

/// An orientation as the C-compatible interface carries it.
#[derive(Debug, Clone, Copy, PartialEq, Eq, Structural)]
pub enum IviOrientation {
    /// 0 degrees.
    Normal,
    /// 90 degrees.
    Rotate90,
    /// 180 degrees.
    Rotate180,
    /// 270 degrees.
    Rotate270,
}

/// What can go wrong on the client side of the protocol.
#[derive(Debug)]
pub enum IviError {
    /// Establishing the connection failed; the text names the path.
    ConnectionFailed(String),
    /// The request was answered with an error code and message.
    RequestFailed {
        /// The wire code of the answer.
        code: i32,
        /// The reason given.
        message: String,
    },
    /// Encoding a request failed.
    SerializationError(String),
    /// Decoding a response failed.
    DeserializationError(String),
    /// Reading or writing the connection failed.
    IoError(String),
}

/// The text of a client error, naming the kind.
pub open spec fn ivi_error_message(e: IviError) -> Seq<char> {
    match e {
        IviError::ConnectionFailed(m) => "Connection failed: "@ + m@,
        IviError::RequestFailed { code, message } => "Request failed (code "@ + dec_str_int(
            code as int,
        ) + "): "@ + message@,
        IviError::SerializationError(m) => "Serialization error: "@ + m@,
        IviError::DeserializationError(m) => "Deserialization error: "@ + m@,
        IviError::IoError(m) => "I/O error: "@ + m@,
    }
}

impl IviError {
    /// Render the error as text.
    pub fn message(&self) -> (r: String)
        ensures
            r@ == ivi_error_message(*self),
    {
        let mut out = String::new();
        match self {
            IviError::ConnectionFailed(m) => {
                out.append("Connection failed: ");
                out.append(m.as_str());
            },
            IviError::RequestFailed { code, message } => {
                out.append("Request failed (code ");
                push_dec_i64(*code as i64, &mut out);
                out.append("): ");
                out.append(message.as_str());
            },
            IviError::SerializationError(m) => {
                out.append("Serialization error: ");
                out.append(m.as_str());
            },
            IviError::DeserializationError(m) => {
                out.append("Deserialization error: ");
                out.append(m.as_str());
            },
            IviError::IoError(m) => {
                out.append("I/O error: ");
                out.append(m.as_str());
            },
        }
        out
    }
}

/// Whether the argument at an index names the socket path in two
/// arguments: `--socket-path`, then the path.
pub open spec fn names_path_split(args: Seq<String>, i: int) -> bool {
    args[i]@ == "--socket-path"@ && i + 1 < args.len()
}

/// Whether the argument at an index names the socket path in one
/// argument: `--socket-path=` and the path behind it.
pub open spec fn names_path_joined(args: Seq<String>, i: int) -> bool {
    args[i]@.len() > "--socket-path="@.len() && args[i]@.take("--socket-path="@.len() as int)
        == "--socket-path="@
}

/// Scan command-line arguments for the socket path: either
/// `--socket-path <path>` in two arguments, or `--socket-path=<path>`
/// in one. The first hit wins; none means the default is used.
#[verifier::loop_isolation(false)]
pub fn parse_socket_path(args: &Vec<String>) -> (r: Option<String>)
    ensures
        match r {
            Some(p) => exists|i: int|
                #![trigger names_path_split(args@, i)]
                #![trigger names_path_joined(args@, i)]
                0 <= i < args@.len() && ((names_path_split(args@, i) && p@ == args@[i + 1]@) || (
                names_path_joined(args@, i) && p@ == args@[i]@.skip(
                    "--socket-path="@.len() as int,
                ))),
            None => forall|i: int|
                #![trigger names_path_split(args@, i)]
                #![trigger names_path_joined(args@, i)]
                0 <= i < args@.len() ==> !names_path_split(args@, i) && !names_path_joined(
                    args@,
                    i,
                ),
        },
{
    proof {
        reveal_strlit("--socket-path");
        reveal_strlit("--socket-path=");
    }
    let mut i: usize = 0;
    while i < args.len()
        invariant
            i <= args@.len(),
            forall|j: int|
                #![trigger names_path_split(args@, j)]
                #![trigger names_path_joined(args@, j)]
                0 <= j < i ==> !names_path_split(args@, j) && !names_path_joined(args@, j),
        decreases args@.len() - i,
    {
        if string_eq_lit(&args[i], "--socket-path") {
            if i + 1 < args.len() {
                proof {
                    assert(names_path_split(args@, i as int));
                }
                return Some(args[i + 1].clone());
            }
            proof {
                assert(args@[i as int]@.len() == 13);
                assert(!names_path_joined(args@, i as int));
            }
        } else {
            let arg = args[i].as_str();
            let n = arg.unicode_len();
            let prefix = "--socket-path=";
            let plen = prefix.unicode_len();
            if n > plen {
                let head = arg.substring_char(0, plen);
                let heads = head.to_owned();
                if string_eq_lit(&heads, prefix) {
                    let tail = arg.substring_char(plen, n).to_owned();
                    proof {
                        assert(heads@ =~= args@[i as int]@.take(plen as int));
                        assert(names_path_joined(args@, i as int));
                        assert(tail@ =~= args@[i as int]@.skip(plen as int));
                    }
                    return Some(tail);
                }
                proof {
                    assert(heads@ =~= args@[i as int]@.take(plen as int));
                    assert(!names_path_joined(args@, i as int));
                }
            } else {
                proof {
                    assert(!names_path_joined(args@, i as int));
                }
            }
        }
        proof {
            assert(!names_path_split(args@, i as int));
            assert(!names_path_joined(args@, i as int));
        }
        i += 1;
    }
    None
}

} // verus!
