//! Method paths of the form `/package.Service/Method`: building one from a
//! service and a method name, and splitting one back.

use vstd::prelude::*;
use vstd::string::*;

verus! {

/// The path of a method: `/`, the service name, `/`, the method name.
pub open spec fn method_path(service: Seq<char>, method: Seq<char>) -> Seq<char> {
    seq!['/'] + service + seq!['/'] + method
}

/// A path that starts with `/` and whose next `/` stands at `j`.
pub open spec fn splits_at(path: Seq<char>, j: int) -> bool {
    &&& 1 <= j < path.len()
    &&& path[0] == '/'
    &&& path[j] == '/'
    &&& forall|k: int| 1 <= k < j ==> path[k] != '/'
}

/// What a path splits into: the service name between the leading `/` and the
/// next one, and the method name after that; nothing when the path does not
/// start with `/` or has no second `/`.
pub open spec fn split_method_path(path: Seq<char>) -> Option<(Seq<char>, Seq<char>)> {
    if exists|j: int| splits_at(path, j) {
        let j = choose|j: int| splits_at(path, j);
        Some((path.subrange(1, j), path.subrange(j + 1, path.len() as int)))
    } else {
        None
    }
}

/// A path splits at one place at most.
pub proof fn lemma_split_unique(path: Seq<char>, i: int, j: int)
    requires
        splits_at(path, i),
        splits_at(path, j),
    ensures
        i == j,
{
    if i < j {
        assert(path[i] != '/');
    } else if j < i {
        assert(path[j] != '/');
    }
}

/// Builds the path of a method: `/{service_name}/{method_name}`.
pub fn full_method(service_name: &str, method_name: &str) -> (r: String)
    ensures
        r@ == method_path(service_name@, method_name@),
{
    let slash = "/";
    proof {
        reveal_strlit("/");
    }
    let mut path = slash.to_owned();
    path.append(service_name);
    path.append(slash);
    path.append(method_name);
    assert(path@ =~= method_path(service_name@, method_name@));
    path
}

/// Splits `/foo.Bar/Baz` into `("foo.Bar", "Baz")`: the text between the
/// leading `/` and the next `/`, and the rest.
pub fn parse_method(method: &str) -> (r: Option<(&str, &str)>)
    ensures
        r is Some <==> split_method_path(method@) is Some,
        r matches Some(p) ==> (p.0@, p.1@) == split_method_path(method@)->0,
{
    let n = method.unicode_len();
    if n == 0 || method.get_char(0) != '/' {
        return None;
    }
    let mut j: usize = 1;
    while j < n
        invariant
            n == method@.len(),
            1 <= j <= n,
            method@[0] == '/',
            forall|k: int| 1 <= k < j ==> method@[k] != '/',
        decreases n - j,
    {
        if method.get_char(j) == '/' {
            assert(splits_at(method@, j as int));
            let service = method.substring_char(1, j);
            let name = method.substring_char(j + 1, n);
            proof {
                let c = choose|c: int| splits_at(method@, c);
                lemma_split_unique(method@, c, j as int);
            }
            return Some((service, name));
        }
        j = j + 1;
    }
    assert(!exists|c: int| splits_at(method@, c));
    None
}

/// Splitting the path of a method whose service name holds no `/` gives the
/// service and method names back.
pub proof fn lemma_split_of_method_path(service: Seq<char>, method: Seq<char>)
    requires
        !service.contains('/'),
    ensures
        split_method_path(method_path(service, method)) == Some((service, method)),
{
    let path = method_path(service, method);
    let j = service.len() as int + 1;
    assert forall|k: int| 1 <= k < j implies path[k] != '/' by {
        assert(path[k] == service[k - 1]);
    }
    assert(splits_at(path, j));
    let c = choose|c: int| splits_at(path, c);
    lemma_split_unique(path, c, j);
    assert(path.subrange(1, j) =~= service);
    assert(path.subrange(j + 1, path.len() as int) =~= method);
}

} // verus!
