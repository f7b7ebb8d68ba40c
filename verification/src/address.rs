//! Addresses of the form `network/account`.

use vstd::prelude::*;
use vstd::string::StringExecFns;
use vstd::string::StrSliceExecFns;
use crate::error::BshError;

verus! {

/// What an address stands for: a network and an account on it.
pub struct AddressView {
    pub network: Seq<char>,
    pub account: Seq<char>,
}

impl AddressView {
    /// Both parts are present, and the network holds no `/`, so that the first
    /// `/` of the text is the one that parts them.
    pub open spec fn wf(self) -> bool {
        &&& self.network.len() > 0
        &&& self.account.len() > 0
        &&& forall|i: int| 0 <= i < self.network.len() ==> self.network[i] != '/'
    }

    /// The text of the address: network, `/`, account.
    pub open spec fn text(self) -> Seq<char> {
        self.network + seq!['/'] + self.account
    }
}

/// A well-formed address reads back from its text in one way only.
pub proof fn lemma_text_determines_address(a: AddressView, b: AddressView)
    requires
        a.wf(),
        b.wf(),
        a.text() == b.text(),
    ensures
        a == b,
{
    let n = a.network.len() as int;
    let m = b.network.len() as int;
    assert(a.text()[n] == '/');
    assert(b.text()[m] == '/');
    if n < m {
        assert(b.text()[n] == b.network[n]);
    }
    if m < n {
        assert(a.text()[m] == a.network[m]);
    }
    assert(a.network =~= a.text().subrange(0, n));
    assert(b.network =~= b.text().subrange(0, m));
    assert(a.account =~= a.text().subrange(n + 1, a.text().len() as int));
    assert(b.account =~= b.text().subrange(m + 1, b.text().len() as int));
}

/// The address of a service on some network. A value is always well formed:
/// it can only be made by [`BTPAddress::parse`].
#[derive(Debug, PartialEq, Eq)]
pub struct BTPAddress {
    network: String,
    account: String,
}

impl View for BTPAddress {
    type V = AddressView;

    closed spec fn view(&self) -> AddressView {
        AddressView { network: self.network@, account: self.account@ }
    }
}

impl Clone for BTPAddress {
    fn clone(&self) -> (res: Self)
        ensures
            res@ == self@,
    {
        proof {
            use_type_invariant(self);
        }
        BTPAddress { network: self.network.clone(), account: self.account.clone() }
    }
}

impl BTPAddress {
    #[verifier::type_invariant]
    spec fn inv(self) -> bool {
        self@.wf()
    }

    /// Reads an address from its text. The text is parted at its first `/`;
    /// it is an address if and only if both parts are non-empty.
    pub fn parse(text: &str) -> (res: Result<BTPAddress, BshError>)
        ensures
            match res {
                Ok(address) => address@.wf() && address@.text() == text@,
                Err(e) => e == BshError::InvalidAddress && forall|a: AddressView|
                    a.wf() ==> a.text() != text@,
            },
    {
        let len: usize = text.unicode_len();
        let mut i: usize = 0;
        while i < len && text.get_char(i) != '/'
            invariant
                len == text@.len(),
                i <= len,
                forall|j: int| 0 <= j < i ==> text@[j] != '/',
            decreases len - i,
        {
            i += 1;
        }
        if i == 0 || i >= len - 1 {
            proof {
                assert forall|a: AddressView| a.wf() implies a.text() != text@ by {
                    if a.text() == text@ {
                        let n = a.network.len() as int;
                        assert(a.text()[n] == '/');
                        assert(a.text()[0] == a.network[0]);
                        if n < i {
                            assert(text@[n] != '/');
                        }
                    }
                }
            }
            return Err(BshError::InvalidAddress);
        }
        let network = text.substring_char(0, i).to_owned();
        let account = text.substring_char(i + 1, len).to_owned();
        let address = BTPAddress { network, account };
        proof {
            assert(address@.text() =~= text@);
        }
        Ok(address)
    }

    /// The network part: what stands before the first `/`.
    pub fn network_address(&self) -> (network: String)
        ensures
            network@ == self@.network,
            self@.wf(),
    {
        proof {
            use_type_invariant(self);
        }
        self.network.clone()
    }

    /// The account part: what stands after the first `/`.
    pub fn account_id(&self) -> (account: String)
        ensures
            account@ == self@.account,
            self@.wf(),
    {
        proof {
            use_type_invariant(self);
        }
        self.account.clone()
    }

    /// The text that [`BTPAddress::parse`] reads this address from.
    pub fn to_string(&self) -> (text: String)
        ensures
            text@ == self@.text(),
            self@.wf(),
    {
        proof {
            use_type_invariant(self);
            reveal_strlit("/");
        }
        let mut text = self.network.clone();
        text.append("/");
        text.append(self.account.as_str());
        proof {
            assert("/"@ =~= seq!['/']);
        }
        text
    }
}

} // verus!
