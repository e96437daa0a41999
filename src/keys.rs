use vstd::prelude::*;

verus! {

/// The decimal digit `d` (0 to 9).
pub open spec fn digit_char(d: nat) -> char {
    "0123456789"@[d as int]
}

/// Decimal representation of `n`, without leading zeros.
pub open spec fn decimal(n: nat) -> Seq<char>
    decreases n,
{
    if n < 10 {
        seq![digit_char(n)]
    } else {
        decimal(n / 10).push(digit_char(n % 10))
    }
}

fn push_decimal(out: &mut String, n: u32)
    ensures
        final(out)@ == old(out)@ + decimal(n as nat),
    decreases n,
{
    if n >= 10 {
        push_decimal(out, n / 10);
    }
    let d = (n % 10) as usize;
    proof {
        reveal_strlit("0123456789");
    }
    let digits = "0123456789";
    out.append(digits.substring_char(d, d + 1));
    proof {
        assert(digits@.subrange(d as int, d + 1) =~= seq![digit_char(d as nat)]);
        if n >= 10 {
            assert(decimal(n as nat) == decimal((n / 10) as nat).push(digit_char((n % 10) as nat)));
        } else {
            assert(decimal(n as nat) == seq![digit_char(n as nat)]);
        }
    }
}

/// Key of a call site: `file:line:column`.
pub open spec fn call_site_spec(file: Seq<char>, line: nat, column: nat) -> Seq<char> {
    file + seq![':'] + decimal(line) + seq![':'] + decimal(column)
}

/// The key that identifies a call site across rebuilds: `file:line:column`.
pub fn call_site_key(file: &str, line: u32, column: u32) -> (r: String)
    ensures
        r@ == call_site_spec(file@, line as nat, column as nat),
{
    let mut out = file.to_owned();
    out.append(":");
    push_decimal(&mut out, line);
    out.append(":");
    push_decimal(&mut out, column);
    proof {
        reveal_strlit(":");
        assert(out@ =~= call_site_spec(file@, line as nat, column as nat));
    }
    out
}

/// Key of a component at a call site: `module:file:line:column`, then
/// `:suffix` when a suffix is given.
pub open spec fn component_id_spec(module: Seq<char>, file: Seq<char>, line: nat, column: nat, suffix: Option<Seq<char>>) -> Seq<char> {
    let base = module + seq![':'] + call_site_spec(file, line, column);
    match suffix {
        Some(s) => base + seq![':'] + s,
        None => base,
    }
}

/// The key of a component at a call site (see `component_id_spec`).
pub fn component_id(module: &str, file: &str, line: u32, column: u32, suffix: Option<&str>) -> (r: String)
    ensures
        r@ == component_id_spec(
            module@,
            file@,
            line as nat,
            column as nat,
            match suffix {
                Some(s) => Some(s@),
                None => None,
            },
        ),
{
    let mut out = module.to_owned();
    out.append(":");
    let site = call_site_key(file, line, column);
    out.append(site.as_str());
    proof {
        reveal_strlit(":");
    }
    match suffix {
        Some(s) => {
            let ghost before = out@;
            out.append(":");
            out.append(s);
            proof {
                assert(out@ =~= before + seq![':'] + s@);
            }
        },
        None => {},
    }
    proof {
        assert(out@ =~= component_id_spec(
            module@,
            file@,
            line as nat,
            column as nat,
            match suffix {
                Some(s) => Some(s@),
                None => None,
            },
        ));
    }
    out
}

/// The key of a component type: `module::Type`.
pub fn component_type_id(module: &str, type_ident: &str) -> (r: String)
    ensures
        r@ == module@ + seq![':', ':'] + type_ident@,
{
    let mut out = module.to_owned();
    out.append("::");
    out.append(type_ident);
    proof {
        reveal_strlit("::");
        assert(out@ =~= module@ + seq![':', ':'] + type_ident@);
    }
    out
}

/// Components that carry their own key, stable across rebuilds.
pub trait ComponentId {
    /// The key of this component type.
    const ID: &'static str;
}

} // verus!
