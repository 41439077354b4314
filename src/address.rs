use vstd::prelude::*;

verus! {

/// `key=value` as the one pair of a list, or no pair when the value is absent.
pub open spec fn key_value(key: Seq<char>, value: Option<String>) -> Seq<Seq<char>> {
    match value {
        Some(v) => seq![key + seq!['='] + v@],
        None => Seq::empty(),
    }
}

/// The pairs joined with `;` between them.
pub open spec fn join_pairs(pairs: Seq<Seq<char>>) -> Seq<char>
    decreases pairs.len(),
{
    if pairs.len() == 0 {
        Seq::empty()
    } else if pairs.len() == 1 {
        pairs[0]
    } else {
        join_pairs(pairs.drop_last()) + seq![';'] + pairs.last()
    }
}

pub open spec fn digit_char(d: nat) -> char {
    if d == 0 {
        '0'
    } else if d == 1 {
        '1'
    } else if d == 2 {
        '2'
    } else if d == 3 {
        '3'
    } else if d == 4 {
        '4'
    } else if d == 5 {
        '5'
    } else if d == 6 {
        '6'
    } else if d == 7 {
        '7'
    } else if d == 8 {
        '8'
    } else {
        '9'
    }
}

/// `n` in decimal, with no leading zero.
pub open spec fn decimal(n: nat) -> Seq<char>
    decreases n,
{
    if n < 10 {
        seq![digit_char(n)]
    } else {
        decimal(n / 10) + seq![digit_char(n % 10)]
    }
}

/// A server address in its textual form, `transport:key=value;key=value`.
pub trait ServerAddress {
    spec fn spec_address(&self) -> Seq<char>;

    fn to_address(&self) -> (r: String)
        ensures
            r@ == self.spec_address(),
    ;
}

/// A Unix domain socket address.
pub struct UnixDomainSocketAddr {
    /// Path of the socket.
    pub path: Option<String>,
    /// Directory in which a socket file with a random file
    /// name starting with 'dbus-' will be created by the server.
    /// This key can only be used in server addresses, not in client
    /// addresses; the resulting client address will have the "path" key
    /// instead.
    pub tmpdir: Option<String>,
    /// Unique string in the abstract namespace, often syntactically resembling
    /// a path but unconnected to the filesystem namespace.
    /// This key is only supported on platforms with abstract Unix sockets,
    /// of which Linux is the only known example.
    pub abstract_name: Option<String>,
    /// If given, This key can only be used in server addresses,
    /// not in client addresses. If set, its value must be yes.
    /// This is typically used in an address string like
    /// unix:runtime=yes;unix:tmpdir=/tmp so that there can be a
    /// fallback if XDG_RUNTIME_DIR is not set.
    pub runtime: Option<String>,
}

/// A TCP socket address.
pub struct TcpSocketAddr {
    /// DNS name or IP address
    pub host: Option<String>,
    /// Used in a listenable address to configure the interface on which the server will listen:
    /// either the IP address of one of the local machine's interfaces (most commonly 127.0.0.1 ),
    /// or a DNS name that resolves to one of those IP addresses, or '*' to listen on all
    /// interfaces simultaneously. If not specified, the default is the same value as "host".
    pub bind: Option<String>,
    /// The tcp port the server will open. A zero value let the server choose a free port
    /// provided from the underlaying operating system.
    pub port: Option<u16>,
    /// If set, provide the type of socket family either "ipv4" or "ipv6".
    /// If unset, the family is unspecified.
    pub family: Option<String>,
}

/// Appends `key=value` to `out`, which holds `pairs` joined, so that it holds them and the
/// new pair joined.
fn append_pair(out: &mut String, key: &str, value: &String, pairs: Ghost<Seq<Seq<char>>>)
    requires
        old(out)@ == join_pairs(pairs@),
        old(out)@.len() == 0 <==> pairs@.len() == 0,
    ensures
        final(out)@ == join_pairs(pairs@.push(key@ + seq!['='] + value@)),
        final(out)@.len() > 0,
{
    proof {
        reveal_strlit(";");
        reveal_strlit("=");
        assert(pairs@.push(key@ + seq!['='] + value@).drop_last() =~= pairs@);
    }
    let first = out.as_str().unicode_len() == 0;
    if !first {
        out.append(";");
    }
    out.append(key);
    out.append("=");
    out.append(value.as_str());
    proof {
        if first {
            assert(out@ =~= key@ + seq!['='] + value@);
        } else {
            assert(out@ =~= join_pairs(pairs@) + seq![';'] + (key@ + seq!['='] + value@));
        }
    }
}

/// Appends `key=value` when `value` is present.
fn append_optional(out: &mut String, key: &str, value: &Option<String>, pairs: Ghost<Seq<Seq<char>>>)
    requires
        old(out)@ == join_pairs(pairs@),
        old(out)@.len() == 0 <==> pairs@.len() == 0,
    ensures
        final(out)@ == join_pairs(pairs@ + key_value(key@, *value)),
        final(out)@.len() == 0 <==> (pairs@ + key_value(key@, *value)).len() == 0,
{
    match value {
        Some(v) => {
            append_pair(out, key, v, pairs);
            assert(pairs@ + key_value(key@, *value) =~= pairs@.push(key@ + seq!['='] + v@));
        },
        None => {
            assert(pairs@ + key_value(key@, *value) =~= pairs@);
        },
    }
}

/// The character of the decimal digit `d`.
fn digit(d: u16) -> (r: &'static str)
    requires
        d < 10,
    ensures
        r@ == seq![digit_char(d as nat)],
{
    proof {
        reveal_strlit("0");
        reveal_strlit("1");
        reveal_strlit("2");
        reveal_strlit("3");
        reveal_strlit("4");
        reveal_strlit("5");
        reveal_strlit("6");
        reveal_strlit("7");
        reveal_strlit("8");
        reveal_strlit("9");
    }
    let r = if d == 0 {
        "0"
    } else if d == 1 {
        "1"
    } else if d == 2 {
        "2"
    } else if d == 3 {
        "3"
    } else if d == 4 {
        "4"
    } else if d == 5 {
        "5"
    } else if d == 6 {
        "6"
    } else if d == 7 {
        "7"
    } else if d == 8 {
        "8"
    } else {
        "9"
    };
    assert(r@ =~= seq![digit_char(d as nat)]);
    r
}

/// `n` in decimal.
pub fn to_decimal(n: u16) -> (r: String)
    ensures
        r@ == decimal(n as nat),
    decreases n,
{
    if n < 10 {
        String::from_str(digit(n))
    } else {
        let mut r = to_decimal(n / 10);
        r.append(digit(n % 10));
        r
    }
}

impl ServerAddress for UnixDomainSocketAddr {
    open spec fn spec_address(&self) -> Seq<char> {
        "unix:"@ + join_pairs(
            key_value("path"@, self.path) + key_value("tmpdir"@, self.tmpdir) + key_value(
                "abstract"@,
                self.abstract_name,
            ) + key_value("runtime"@, self.runtime),
        )
    }

    fn to_address(&self) -> (r: String) {
        let mut pairs = String::new();
        let ghost empty: Seq<Seq<char>> = Seq::empty();
        append_optional(&mut pairs, "path", &self.path, Ghost(empty));
        let ghost after_path = empty + key_value("path"@, self.path);
        append_optional(&mut pairs, "tmpdir", &self.tmpdir, Ghost(after_path));
        let ghost after_tmpdir = after_path + key_value("tmpdir"@, self.tmpdir);
        append_optional(&mut pairs, "abstract", &self.abstract_name, Ghost(after_tmpdir));
        let ghost after_abstract = after_tmpdir + key_value("abstract"@, self.abstract_name);
        append_optional(&mut pairs, "runtime", &self.runtime, Ghost(after_abstract));
        let ghost after_runtime = after_abstract + key_value("runtime"@, self.runtime);
        assert(after_runtime =~= key_value("path"@, self.path) + key_value("tmpdir"@, self.tmpdir) + key_value(
            "abstract"@,
            self.abstract_name,
        ) + key_value("runtime"@, self.runtime));
        let mut r = String::from_str("unix:");
        r.append(pairs.as_str());
        r
    }
}

impl ServerAddress for TcpSocketAddr {
    open spec fn spec_address(&self) -> Seq<char> {
        "tcp:"@ + join_pairs(
            key_value("host"@, self.host) + key_value("bind"@, self.bind) + match self.port {
                Some(p) => seq!["port"@ + seq!['='] + decimal(p as nat)],
                None => Seq::<Seq<char>>::empty(),
            } + key_value("family"@, self.family),
        )
    }

    fn to_address(&self) -> (r: String) {
        let mut pairs = String::new();
        let ghost empty: Seq<Seq<char>> = Seq::empty();
        append_optional(&mut pairs, "host", &self.host, Ghost(empty));
        let ghost after_host = empty + key_value("host"@, self.host);
        append_optional(&mut pairs, "bind", &self.bind, Ghost(after_host));
        let ghost after_bind = after_host + key_value("bind"@, self.bind);
        let ghost port_pairs = match self.port {
            Some(p) => seq!["port"@ + seq!['='] + decimal(p as nat)],
            None => Seq::<Seq<char>>::empty(),
        };
        if let Some(port) = self.port {
            let text = to_decimal(port);
            append_pair(&mut pairs, "port", &text, Ghost(after_bind));
            assert(after_bind.push("port"@ + seq!['='] + text@) =~= after_bind + port_pairs);
        } else {
            assert(after_bind + port_pairs =~= after_bind);
        }
        let ghost after_port = after_bind + port_pairs;
        append_optional(&mut pairs, "family", &self.family, Ghost(after_port));
        let ghost after_family = after_port + key_value("family"@, self.family);
        assert(after_family =~= key_value("host"@, self.host) + key_value("bind"@, self.bind) + port_pairs
            + key_value("family"@, self.family));
        let mut r = String::from_str("tcp:");
        r.append(pairs.as_str());
        r
    }
}

} // verus!
