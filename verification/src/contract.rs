//! The contract a mock server serves: an ordered sequence of expected
//! interactions, each pairing an expected request with the response to play
//! back, plus the classification of an actual request against them.

use vstd::prelude::*;

verus! {

/// The body of a request or response: absent entirely, known to be empty, an
/// explicit null, or present as text with an optional content type.
#[derive(Clone)]
#[verifier::ext_equal]
pub enum OptionalBody {
    Missing,
    Empty,
    Null,
    Present(String, Option<String>),
}

impl OptionalBody {
    /// An owned copy holding the same content.
    pub fn duplicate(&self) -> (r: OptionalBody)
        ensures
            r == *self,
    {
        match self {
            OptionalBody::Missing => OptionalBody::Missing,
            OptionalBody::Empty => OptionalBody::Empty,
            OptionalBody::Null => OptionalBody::Null,
            OptionalBody::Present(text, content_type) => OptionalBody::Present(
                text.clone(),
                match content_type {
                    Some(ct) => Some(ct.clone()),
                    None => None,
                },
            ),
        }
    }
}

/// One HTTP request as the mock server sees it: its method, its path, and the
/// body that arrived.
#[derive(Clone)]
#[verifier::ext_equal]
pub struct HttpRequest {
    pub method: String,
    pub path: String,
    pub body: OptionalBody,
}

/// One HTTP response: the status to answer with, the headers, and the body.
#[derive(Clone)]
#[verifier::ext_equal]
pub struct HttpResponse {
    pub status: u16,
    pub headers: Vec<(String, String)>,
    pub body: OptionalBody,
}

/// Whether two responses carry the same status, headers and body.
pub open spec fn spec_response_equiv(a: HttpResponse, b: HttpResponse) -> bool {
    a.status == b.status && a.headers@ == b.headers@ && a.body == b.body
}

impl HttpResponse {
    /// An owned copy of the response, with the same status, headers and body.
    pub fn duplicate(&self) -> (r: HttpResponse)
        ensures
            spec_response_equiv(r, *self),
    {
        let mut headers: Vec<(String, String)> = Vec::new();
        let mut i: usize = 0;
        while i < self.headers.len()
            invariant
                i <= self.headers.len(),
                headers@.len() == i as int,
                forall|j: int| 0 <= j < i ==> headers@[j] == self.headers@[j],
            decreases self.headers.len() - i,
        {
            let name = self.headers[i].0.clone();
            let value = self.headers[i].1.clone();
            headers.push((name, value));
            i += 1;
        }
        let r = HttpResponse { status: self.status, headers, body: self.body.duplicate() };
        proof {
            assert(r.headers@ =~= self.headers@);
        }
        r
    }
}

/// One expected interaction: a request the consumer will make, the response
/// the provider is expected to give, and an optional provider state that
/// parametrizes it.
#[derive(Clone)]
#[verifier::ext_equal]
pub struct Interaction {
    pub description: String,
    pub provider_state: Option<String>,
    pub request: HttpRequest,
    pub response: HttpResponse,
}

/// A consumer-provider contract: the two names and the ordered expected
/// interactions. Immutable once handed to the registry.
#[derive(Clone)]
#[verifier::ext_equal]
pub struct Contract {
    pub consumer: String,
    pub provider: String,
    pub interactions: Vec<Interaction>,
}

/// Whether a declared interaction's expected request matches an actual
/// request, by method and path.
pub open spec fn spec_interaction_matches(i: Interaction, method: Seq<char>, path: Seq<char>) -> bool {
    i.request.method@ == method && i.request.path@ == path
}

/// Whether index `i` is the first interaction of `c` matching the request.
pub open spec fn spec_first_match(c: Contract, method: Seq<char>, path: Seq<char>, i: int) -> bool {
    &&& 0 <= i < c.interactions@.len()
    &&& spec_interaction_matches(c.interactions@[i], method, path)
    &&& forall|j: int| 0 <= j < i ==> !spec_interaction_matches(c.interactions@[j], method, path)
}

/// Whether some interaction of `c` matches the request.
pub open spec fn spec_has_match(c: Contract, method: Seq<char>, path: Seq<char>) -> bool {
    exists|i: int| spec_first_match(c, method, path, i)
}

/// The index of the first matching interaction, where one exists.
pub open spec fn spec_match_index(c: Contract, method: Seq<char>, path: Seq<char>) -> int {
    choose|i: int| spec_first_match(c, method, path, i)
}

/// At most one index is the first match.
pub proof fn lemma_first_match_unique(c: Contract, method: Seq<char>, path: Seq<char>, i: int, j: int)
    requires
        spec_first_match(c, method, path, i),
        spec_first_match(c, method, path, j),
    ensures
        i == j,
{
    if i < j {
        assert(!spec_interaction_matches(c.interactions@[i], method, path));
    }
    if j < i {
        assert(!spec_interaction_matches(c.interactions@[j], method, path));
    }
}

impl Contract {
    /// The index of the first declared interaction whose expected request
    /// carries exactly this method and path, if any.
    pub fn find_matching_interaction(&self, method: &String, path: &String) -> (r: Option<usize>)
        ensures
            (match r {
                Some(i) => spec_first_match(*self, method@, path@, i as int),
                None => !spec_has_match(*self, method@, path@),
            }),
    {
        let mut k: usize = 0;
        while k < self.interactions.len()
            invariant
                k <= self.interactions.len(),
                forall|j: int| 0 <= j < k ==> !spec_interaction_matches(self.interactions@[j], method@, path@),
            decreases self.interactions.len() - k,
        {
            let it = &self.interactions[k];
            if it.request.method == *method && it.request.path == *path {
                return Some(k);
            }
            k += 1;
        }
        proof {
            assert forall|i: int| !spec_first_match(*self, method@, path@, i) by {
                if 0 <= i < self.interactions@.len() {
                    assert(!spec_interaction_matches(self.interactions@[i], method@, path@));
                }
            }
        }
        None
    }
}

} // verus!
