//! The service registry: an immutable table from logical service names to
//! backend base URLs.

use vstd::prelude::*;

verus! {

/// One row of the table.
pub struct ServiceEntry {
    pub name: String,
    pub base_url: String,
}

/// Why a table was refused.
#[derive(Debug, Clone, Copy, PartialEq, Eq, Structural)]
pub enum RegistryError {
    /// Two rows share a name.
    DuplicateName,
    /// A base URL lacks an `http://` or `https://` scheme or a host.
    InvalidBaseUrl,
}

/// `s` begins with `p`.
pub open spec fn has_prefix(s: Seq<char>, p: Seq<char>) -> bool {
    p.len() <= s.len() && s.subrange(0, p.len() as int) == p
}

/// `s` begins with `scheme` and goes on with a host (a character that is not a slash).
pub open spec fn scheme_then_host(s: Seq<char>, scheme: Seq<char>) -> bool {
    has_prefix(s, scheme) && s.len() > scheme.len() && s[scheme.len() as int] != '/'
}

/// An absolute HTTP(S) URL with a host.
pub open spec fn is_absolute_url(s: Seq<char>) -> bool {
    scheme_then_host(s, "http://"@) || scheme_then_host(s, "https://"@)
}

/// The base URL of the first row named `name`.
pub open spec fn lookup(entries: Seq<ServiceEntry>, name: Seq<char>) -> Option<Seq<char>>
    decreases entries.len(),
{
    if entries.len() == 0 {
        None
    } else if entries[0].name@ == name {
        Some(entries[0].base_url@)
    } else {
        lookup(entries.drop_first(), name)
    }
}

/// Names are distinct and every base URL is absolute.
pub open spec fn table_ok(entries: Seq<ServiceEntry>) -> bool {
    &&& forall|i: int, j: int| 0 <= i < j < entries.len() ==> entries[i].name@ != entries[j].name@
    &&& forall|i: int| 0 <= i < entries.len() ==> is_absolute_url(#[trigger] entries[i].base_url@)
}

proof fn lemma_lookup_found(entries: Seq<ServiceEntry>, name: Seq<char>, i: int)
    requires
        table_ok(entries),
        0 <= i < entries.len(),
        entries[i].name@ == name,
    ensures
        lookup(entries, name) == Some(entries[i].base_url@),
    decreases entries.len(),
{
    if i > 0 {
        let rest = entries.drop_first();
        assert(entries[0].name@ != entries[i].name@);
        assert(rest[i - 1] == entries[i]);
        assert(table_ok(rest)) by {
            assert forall|a: int| 0 <= a < rest.len() implies is_absolute_url(#[trigger] rest[a].base_url@) by {
                assert(rest[a] == entries[a + 1]);
            }
            assert forall|a: int, b: int| 0 <= a < b < rest.len() implies rest[a].name@ != rest[b].name@ by {
                assert(rest[a] == entries[a + 1] && rest[b] == entries[b + 1]);
            }
        }
        lemma_lookup_found(rest, name, i - 1);
    }
}

proof fn lemma_lookup_absent(entries: Seq<ServiceEntry>, name: Seq<char>)
    requires
        forall|i: int| 0 <= i < entries.len() ==> entries[i].name@ != name,
    ensures
        lookup(entries, name) is None,
    decreases entries.len(),
{
    if entries.len() > 0 {
        assert(entries[0].name@ != name);
        let rest = entries.drop_first();
        assert forall|i: int| 0 <= i < rest.len() implies rest[i].name@ != name by {
            assert(rest[i] == entries[i + 1]);
        }
        lemma_lookup_absent(rest, name);
    }
}

/// `s` begins with `scheme` followed by a host character.
fn starts_with_host(s: &str, scheme: &str) -> (r: bool)
    ensures
        r == scheme_then_host(s@, scheme@),
{
    let n: usize = s.unicode_len();
    let m: usize = scheme.unicode_len();
    if m >= n {
        return false;
    }
    let mut i: usize = 0;
    while i < m
        invariant
            n == s@.len(),
            m == scheme@.len(),
            m < n,
            i <= m,
            forall|k: int| 0 <= k < i ==> s@[k] == scheme@[k],
        decreases m - i,
    {
        if s.get_char(i) != scheme.get_char(i) {
            assert(s@.subrange(0, m as int)[i as int] != scheme@[i as int]);
            return false;
        }
        i = i + 1;
    }
    assert(s@.subrange(0, m as int) =~= scheme@);
    s.get_char(m) != '/'
}

/// Whether `s` is an absolute HTTP(S) URL with a host.
pub fn is_base_url(s: &str) -> (r: bool)
    ensures
        r == is_absolute_url(s@),
{
    starts_with_host(s, "http://") || starts_with_host(s, "https://")
}

/// A name-to-base-URL table, fixed once built.
pub struct ServiceRegistry {
    entries: Vec<ServiceEntry>,
}

impl ServiceRegistry {
    /// The rows of the table.
    pub closed spec fn entries(&self) -> Seq<ServiceEntry> {
        self.entries@
    }

    /// Distinct names, absolute base URLs.
    pub open spec fn wf(&self) -> bool {
        table_ok(self.entries())
    }

    /// The base URL registered under `name`, if any.
    pub open spec fn base_url_of(&self, name: Seq<char>) -> Option<Seq<char>> {
        lookup(self.entries(), name)
    }

    /// Builds the table from (name, base URL) rows.
    pub fn new(rows: Vec<(String, String)>) -> (r: Result<ServiceRegistry, RegistryError>)
        ensures
            r is Ok <==> (forall|i: int, j: int| 0 <= i < j < rows@.len() ==> rows@[i].0@ != rows@[j].0@)
                && (forall|i: int| 0 <= i < rows@.len() ==> is_absolute_url(#[trigger] rows@[i].1@)),
            r is Err && (exists|i: int| 0 <= i < rows@.len() && !is_absolute_url(#[trigger] rows@[i].1@))
                ==> r->Err_0 == RegistryError::InvalidBaseUrl,
            r is Err && (forall|i: int| 0 <= i < rows@.len() ==> is_absolute_url(#[trigger] rows@[i].1@))
                ==> r->Err_0 == RegistryError::DuplicateName,
            r matches Ok(reg) ==> reg.wf() && reg.entries().len() == rows@.len()
                && forall|i: int| 0 <= i < rows@.len() ==> (#[trigger] reg.entries()[i]).name@ == rows@[i].0@
                    && reg.entries()[i].base_url@ == rows@[i].1@,
    {
        let n = rows.len();
        let mut i: usize = 0;
        while i < n
            invariant
                n == rows@.len(),
                i <= n,
                forall|k: int| 0 <= k < i ==> is_absolute_url(#[trigger] rows@[k].1@),
            decreases n - i,
        {
            if !is_base_url(rows[i].1.as_str()) {
                return Err(RegistryError::InvalidBaseUrl);
            }
            i = i + 1;
        }
        let mut i: usize = 0;
        while i < n
            invariant
                n == rows@.len(),
                i <= n,
                forall|k: int| 0 <= k < n ==> is_absolute_url(#[trigger] rows@[k].1@),
                forall|a: int, b: int| 0 <= a < b < n && a < i ==> rows@[a].0@ != rows@[b].0@,
            decreases n - i,
        {
            let mut j: usize = i + 1;
            while j < n
                invariant
                    n == rows@.len(),
                    i < n,
                    i < j <= n,
                    forall|a: int, b: int| 0 <= a < b < n && a < i ==> rows@[a].0@ != rows@[b].0@,
                    forall|b: int| i < b < j ==> rows@[i as int].0@ != rows@[b].0@,
                    forall|k: int| 0 <= k < n ==> is_absolute_url(#[trigger] rows@[k].1@),
                decreases n - j,
            {
                if rows[i].0 == rows[j].0 {
                    return Err(RegistryError::DuplicateName);
                }
                j = j + 1;
            }
            i = i + 1;
        }
        let mut entries: Vec<ServiceEntry> = Vec::new();
        let mut rest = rows;
        while rest.len() > 0
            invariant
                entries@.len() + rest@.len() == rows@.len(),
                forall|k: int| 0 <= k < entries@.len() ==> (#[trigger] entries@[k]).name@ == rows@[k].0@
                    && entries@[k].base_url@ == rows@[k].1@,
                forall|k: int| 0 <= k < rest@.len() ==> #[trigger] rest@[k] == rows@[k + entries@.len()],
            decreases rest@.len(),
        {
            let (name, base_url) = rest.remove(0);
            entries.push(ServiceEntry { name, base_url });
        }
        Ok(ServiceRegistry { entries })
    }

    /// The base URL registered under `name`; `None` where no row has that name.
    pub fn resolve(&self, name: &str) -> (r: Option<String>)
        requires
            self.wf(),
        ensures
            r is Some <==> self.base_url_of(name@) is Some,
            r matches Some(u) ==> self.base_url_of(name@) == Some(u@),
            self.base_url_of(name@) is None <==> forall|i: int| 0 <= i < self.entries().len()
                ==> (#[trigger] self.entries()[i]).name@ != name@,
    {
        let key = String::from_str(name);
        let n = self.entries.len();
        let mut i: usize = 0;
        while i < n
            invariant
                n == self.entries@.len(),
                i <= n,
                key@ == name@,
                table_ok(self.entries@),
                forall|k: int| 0 <= k < i ==> (#[trigger] self.entries@[k]).name@ != name@,
            decreases n - i,
        {
            if self.entries[i].name == key {
                proof {
                    lemma_lookup_found(self.entries@, name@, i as int);
                }
                return Some(self.entries[i].base_url.clone());
            }
            i = i + 1;
        }
        proof {
            lemma_lookup_absent(self.entries@, name@);
        }
        None
    }
}

} // verus!
