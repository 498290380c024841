//! The rules by which a server and its client are generated from a
//! description: the names of the generated items, the channel types they
//! use, and which methods of an `impl` block can be served.
//!
//! The token streams themselves are produced around these rules; here they
//! are plain values.
use convert_case::{Case, Casing};
use vstd::prelude::*;
use vstd::string::StringExecFns;
use vstd::utf8::is_ascii_chars;

verus! {

/// The two cases that generated names are converted to.
#[derive(PartialEq, Eq, Structural, Debug, Clone, Copy)]
pub enum NameCase {
    /// `lower_case_with_underscores`, used for the generated module.
    Snake,
    /// `EachWordCapitalized`, used for the request and reply variants.
    UpperCamel,
}

/// What `convert_case` makes of the text `s` when converting it to `case`.
pub uninterp spec fn case_converted(s: Seq<char>, case: NameCase) -> Seq<char>;

/// `convert_case::Casing::to_case` on a string slice, with `NameCase::Snake`
/// as `Case::Snake` and `NameCase::UpperCamel` as `Case::UpperCamel`. The
/// result depends on the text and the case alone; it is named, not stated.
/// `convert_case` finds word boundaries by character position but cuts the
/// text at byte positions, which panics inside a multi-byte character, so
/// the text must be ASCII.
#[verifier::external_body]
fn to_case(s: &str, case: NameCase) -> (r: String)
    requires
        is_ascii_chars(s@),
    ensures
        r@ == case_converted(s@, case),
{
    match case {
        NameCase::Snake => s.to_case(Case::Snake),
        NameCase::UpperCamel => s.to_case(Case::UpperCamel),
    }
}

/// The names of what is generated for a server called `name`.
pub struct ServerNames {
    /// The server type: the name followed by `Server`.
    pub server: String,
    /// The client type: the name followed by `Client`.
    pub client: String,
    /// The module holding both: the name followed by `Mod`, in snake case.
    pub module: String,
    /// The request and reply variant of each method: its name in upper camel
    /// case, in the order of the methods.
    pub variants: Vec<String>,
}

/// The server's name and every method name are ASCII text.
pub open spec fn names_are_ascii(name: Seq<char>, methods: Seq<String>) -> bool {
    &&& is_ascii_chars(name)
    &&& forall|i: int| 0 <= i < methods.len() ==> is_ascii_chars(#[trigger] methods[i]@)
}

/// Computes the names of the items generated for the server `name` with the
/// methods `methods`. Case conversion is done on ASCII text only: when the
/// name or a method name holds another character there are no names.
pub fn server_names(name: &str, methods: &Vec<String>) -> (res: Option<ServerNames>)
    ensures
        res is None <==> !names_are_ascii(name@, methods@),
        res is None ==> !is_ascii_chars(name@) || exists|i: int|
            0 <= i < methods@.len() && !is_ascii_chars(#[trigger] methods@[i]@),
        res matches Some(n) ==> {
            &&& n.server@ == name@ + "Server"@
            &&& n.client@ == name@ + "Client"@
            &&& n.module@ == case_converted(name@ + "Mod"@, NameCase::Snake)
            &&& n.variants@.len() == methods@.len()
            &&& forall|i: int|
                0 <= i < methods@.len() ==> #[trigger] n.variants@[i]@ == case_converted(
                    methods@[i]@,
                    NameCase::UpperCamel,
                )
        },
{
    if !name.is_ascii() {
        return None;
    }
    let mut k: usize = 0;
    while k < methods.len()
        invariant
            k <= methods@.len(),
            forall|j: int| 0 <= j < k ==> is_ascii_chars(#[trigger] methods@[j]@),
        decreases methods@.len() - k,
    {
        if !methods[k].as_str().is_ascii() {
            return None;
        }
        k += 1;
    }
    let mut server = String::from_str(name);
    server.append("Server");
    let mut client = String::from_str(name);
    client.append("Client");
    let mut module_name = String::from_str(name);
    module_name.append("Mod");
    proof {
        reveal_strlit("Mod");
        let t = name@ + "Mod"@;
        assert forall|j: int| 0 <= j < t.len() implies '\0' <= #[trigger] t[j] <= '\u{7f}' by {
            if j >= name@.len() {
                assert(t[j] == "Mod"@[j - name@.len()]);
            }
        }
    }
    let module = to_case(module_name.as_str(), NameCase::Snake);
    let mut variants: Vec<String> = Vec::new();
    let mut i: usize = 0;
    while i < methods.len()
        invariant
            i <= methods@.len(),
            variants@.len() == i,
            forall|j: int| 0 <= j < methods@.len() ==> is_ascii_chars(#[trigger] methods@[j]@),
            forall|j: int|
                0 <= j < i ==> #[trigger] variants@[j]@ == case_converted(
                    methods@[j]@,
                    NameCase::UpperCamel,
                ),
        decreases methods@.len() - i,
    {
        let v = to_case(methods[i].as_str(), NameCase::UpperCamel);
        variants.push(v);
        i += 1;
    }
    Some(ServerNames { server, client, module, variants })
}

/// Names are refused only for non-ASCII text: an ASCII server name with
/// ASCII method names, however many, is accepted.
pub proof fn lemma_ascii_names_accepted(name: Seq<char>, methods: Seq<String>)
    requires
        is_ascii_chars(name),
        forall|i: int| 0 <= i < methods.len() ==> is_ascii_chars(#[trigger] methods[i]@),
    ensures
        names_are_ascii(name, methods),
{
}

/// The paths of the channel items that a generated server uses.
pub struct Transport {
    /// The type of one end of a connection: a two-way end for a server that
    /// is not ordered, a sender for an ordered one.
    pub sender: String,
    /// The type of a receiving end (the same two-way end when not ordered).
    pub receiver: String,
    /// The function that makes a new connection.
    pub create: String,
}

/// The channel items for a server that is `ordered` (all clients share one
/// queue into the server) or not (each client has a two-way connection of
/// its own), synchronous or `asynchronous`.
pub fn transport(ordered: bool, asynchronous: bool) -> (t: Transport)
    ensures
        ordered && asynchronous ==> {
            &&& t.sender@ == "::server_client::asynchronous::Sender"@
            &&& t.receiver@ == "::server_client::asynchronous::Receiver"@
            &&& t.create@ == "::server_client::asynchronous::unbounded"@
        },
        ordered && !asynchronous ==> {
            &&& t.sender@ == "::server_client::channel::Sender"@
            &&& t.receiver@ == "::server_client::channel::Receiver"@
            &&& t.create@ == "::server_client::channel::unbounded"@
        },
        !ordered && asynchronous ==> {
            &&& t.sender@ == "::server_client::asynchronous::DuplexEnd"@
            &&& t.receiver@ == "::server_client::asynchronous::DuplexEnd"@
            &&& t.create@ == "::server_client::asynchronous::duplex"@
        },
        !ordered && !asynchronous ==> {
            &&& t.sender@ == "::server_client::DuplexEnd"@
            &&& t.receiver@ == "::server_client::DuplexEnd"@
            &&& t.create@ == "::server_client::duplex"@
        },
{
    if ordered {
        if asynchronous {
            Transport {
                sender: String::from_str("::server_client::asynchronous::Sender"),
                receiver: String::from_str("::server_client::asynchronous::Receiver"),
                create: String::from_str("::server_client::asynchronous::unbounded"),
            }
        } else {
            Transport {
                sender: String::from_str("::server_client::channel::Sender"),
                receiver: String::from_str("::server_client::channel::Receiver"),
                create: String::from_str("::server_client::channel::unbounded"),
            }
        }
    } else if asynchronous {
        Transport {
            sender: String::from_str("::server_client::asynchronous::DuplexEnd"),
            receiver: String::from_str("::server_client::asynchronous::DuplexEnd"),
            create: String::from_str("::server_client::asynchronous::duplex"),
        }
    } else {
        Transport {
            sender: String::from_str("::server_client::DuplexEnd"),
            receiver: String::from_str("::server_client::DuplexEnd"),
            create: String::from_str("::server_client::duplex"),
        }
    }
}

/// What is known of a method of an `impl` block that is to be served.
pub struct MethodShape {
    /// The method's name.
    pub name: String,
    /// Whether it is an `async fn`.
    pub is_async: bool,
    /// Whether it has generic parameters.
    pub has_generics: bool,
    /// Whether it has a `where` clause.
    pub has_where_clause: bool,
    /// Whether it takes `self` in some form.
    pub has_receiver: bool,
}

/// How the generated server calls a method.
#[derive(PartialEq, Eq, Structural, Debug, Clone, Copy)]
pub struct MethodPlan {
    /// The call is awaited.
    pub awaits: bool,
    /// The call is made on the served value (`self.value.name(..)`), not on
    /// its type (`Type::name(..)`).
    pub on_value: bool,
}

/// Why an `impl` block, or a method of it, cannot be served.
#[derive(PartialEq, Eq, Structural, Debug, Clone, Copy)]
pub enum EncapsulateError {
    /// The block implements a trait.
    TraitImpl,
    /// The block holds something other than methods.
    NonMethodItem,
    /// The method is `async` but the server is not.
    AsyncInSyncServer,
    /// The method has generic parameters.
    Generics,
    /// The method has a `where` clause.
    WhereClause,
    /// The method is called `new`, which the server itself defines.
    NamedNew,
}

impl EncapsulateError {
    /// The message reported for the error.
    pub fn message(&self) -> (m: &'static str)
        ensures
            *self == EncapsulateError::TraitImpl ==> m@
                == "Can't encapsulate in a server-client a trait implementation"@,
            *self == EncapsulateError::NonMethodItem ==> m@
                == "Can't encapsulate impls with non methods (use another impl block)"@,
            *self == EncapsulateError::AsyncInSyncServer ==> m@
                == "Can't encapsulate async method in non async server"@,
            *self == EncapsulateError::Generics ==> m@
                == "Can't encapsulate method with generics"@,
            *self == EncapsulateError::WhereClause ==> m@
                == "Can't encapsulate method with where clause"@,
            *self == EncapsulateError::NamedNew ==> m@ == "Can't encapsulate method with name new"@,
    {
        match self {
            EncapsulateError::TraitImpl => "Can't encapsulate in a server-client a trait implementation",
            EncapsulateError::NonMethodItem => "Can't encapsulate impls with non methods (use another impl block)",
            EncapsulateError::AsyncInSyncServer => "Can't encapsulate async method in non async server",
            EncapsulateError::Generics => "Can't encapsulate method with generics",
            EncapsulateError::WhereClause => "Can't encapsulate method with where clause",
            EncapsulateError::NamedNew => "Can't encapsulate method with name new",
        }
    }
}

/// Whether the method `m` can be served by a server that is `server_async`
/// or not, and if so how it is called. The checks come in this order: an
/// `async` method needs an asynchronous server, then no generics, then no
/// `where` clause, then a name other than `new`.
pub fn plan_method(m: &MethodShape, server_async: bool) -> (res: Result<
    MethodPlan,
    EncapsulateError,
>)
    ensures
        m.is_async && !server_async ==> res == Err::<MethodPlan, EncapsulateError>(
            EncapsulateError::AsyncInSyncServer,
        ),
        !(m.is_async && !server_async) && m.has_generics ==> res == Err::<
            MethodPlan,
            EncapsulateError,
        >(EncapsulateError::Generics),
        !(m.is_async && !server_async) && !m.has_generics && m.has_where_clause ==> res
            == Err::<MethodPlan, EncapsulateError>(EncapsulateError::WhereClause),
        !(m.is_async && !server_async) && !m.has_generics && !m.has_where_clause && m.name@
            == "new"@ ==> res == Err::<MethodPlan, EncapsulateError>(EncapsulateError::NamedNew),
        !(m.is_async && !server_async) && !m.has_generics && !m.has_where_clause && m.name@
            != "new"@ ==> res == Ok::<MethodPlan, EncapsulateError>(
            MethodPlan { awaits: m.is_async, on_value: m.has_receiver },
        ),
{
    if m.is_async && !server_async {
        return Err(EncapsulateError::AsyncInSyncServer);
    }
    if m.has_generics {
        return Err(EncapsulateError::Generics);
    }
    if m.has_where_clause {
        return Err(EncapsulateError::WhereClause);
    }
    let new_name = String::from_str("new");
    if m.name == new_name {
        return Err(EncapsulateError::NamedNew);
    }
    Ok(MethodPlan { awaits: m.is_async, on_value: m.has_receiver })
}

} // verus!
