//! The contact resolver's decision logic: given a person's raw contact
//! methods, keep the voice and sms destinations, normalize each, and produce
//! the strictly ascending, duplicate-free list of phone numbers.

use vstd::prelude::*;
use crate::order::lex_lt;
use crate::order::lemma_lex_lt_connected;
use crate::order::lemma_lex_lt_transitive;
use crate::order::str_lt;
use crate::order::strictly_sorted;
use crate::phone::format_phone_number;
use crate::phone::normalize_spec;

verus! {

/// One raw contact method of a person, as the contact provider reports it.
#[derive(Clone, Debug)]
pub struct UserContact {
    pub to: String,
    pub id: String,
    pub contact_method: String,
    pub enabled: bool,
}

/// Contact methods whose destinations count as phone numbers.
pub open spec fn relevant_method(m: Seq<char>) -> bool {
    m == "voice"@ || m == "sms"@
}

/// The normalized destinations of all voice and sms contact methods, in
/// provider order, duplicates included.
pub open spec fn candidate_numbers(contacts: Seq<UserContact>) -> Seq<Seq<char>> {
    contacts.filter(|c: UserContact| relevant_method(c.contact_method@)).map_values(
        |c: UserContact| normalize_spec(c.to@),
    )
}

/// What the contact resolver owes: a strictly ascending list holding exactly
/// the candidate numbers.
pub open spec fn phone_list_ok(r: Seq<Seq<char>>, contacts: Seq<UserContact>) -> bool {
    &&& strictly_sorted(r)
    &&& forall|x: Seq<char>|
        #[trigger] r.contains(x) <==> candidate_numbers(contacts).contains(x)
}

/// Finds where a number belongs in a strictly ascending list: the index of the
/// first entry not below it.
fn find_position(list: &Vec<String>, number: &String) -> (j: usize)
    ensures
        j <= list@.len(),
        forall|k: int| 0 <= k < j ==> lex_lt(#[trigger] list.deep_view()[k], number@),
        j < list@.len() ==> !lex_lt(list.deep_view()[j as int], number@),
{
    let mut j: usize = 0;
    while j < list.len()
        invariant
            j <= list@.len(),
            forall|k: int| 0 <= k < j ==> lex_lt(#[trigger] list.deep_view()[k], number@),
        decreases list@.len() - j,
    {
        if !str_lt(list[j].as_str(), number.as_str()) {
            return j;
        }
        j = j + 1;
    }
    j
}

/// Inserts a number into a strictly ascending list, keeping it strictly
/// ascending; a number already present is dropped.
fn insert_number(list: &mut Vec<String>, number: String)
    requires
        strictly_sorted(old(list).deep_view()),
    ensures
        strictly_sorted(final(list).deep_view()),
        forall|x: Seq<char>|
            #[trigger] final(list).deep_view().contains(x) <==> (old(list).deep_view().contains(x)
                || x == number@),
{
    let ghost s0 = old(list).deep_view();
    let j = find_position(list, &number);
    if j < list.len() && list[j] == number {
        proof {
            assert(s0[j as int] == number@);
            assert(s0.contains(number@));
        }
        return ;
    }
    proof {
        if (j as int) < s0.len() {
            assert(list@[j as int]@ != number@);
            if !lex_lt(number@, s0[j as int]) {
                lemma_lex_lt_connected(s0[j as int], number@);
            }
            assert(lex_lt(number@, s0[j as int]));
        }
    }
    list.insert(j, number);
    proof {
        let nv = list.deep_view();
        assert(list@ == old(list)@.insert(j as int, number));
        assert(nv.len() == s0.len() + 1);
        assert(forall|k: int| 0 <= k < j ==> #[trigger] nv[k] == s0[k]);
        assert(nv[j as int] == number@);
        assert(forall|k: int| j < k < nv.len() ==> #[trigger] nv[k] == s0[k - 1]);
        assert forall|p: int, q: int| 0 <= p < q < nv.len() implies lex_lt(
            #[trigger] nv[p],
            #[trigger] nv[q],
        ) by {
            if p < j && q < j {
            } else if p < j && q == j {
            } else if p == j && q > j {
                if q - 1 > j {
                    lemma_lex_lt_transitive(number@, s0[j as int], s0[q - 1]);
                }
            } else if p < j && q > j {
            }
        }
        assert forall|x: Seq<char>| #[trigger] nv.contains(x) implies (s0.contains(x) || x
            == number@) by {
            let k = choose|k: int| 0 <= k < nv.len() && nv[k] == x;
            if k < j {
                assert(s0[k] == x);
            } else if k > j {
                assert(s0[k - 1] == x);
            }
        }
        assert forall|x: Seq<char>| s0.contains(x) implies nv.contains(x) by {
            let k = choose|k: int| 0 <= k < s0.len() && s0[k] == x;
            if k < j {
                assert(nv[k] == x);
            } else {
                assert(nv[k + 1] == x);
            }
        }
        assert(nv.contains(number@));
    }
}

/// Resolves a person's phone numbers: keeps the voice and sms entries,
/// normalizes each destination, and returns them sorted ascending with exact
/// duplicates removed. A list with no voice or sms entry yields an empty
/// result, which is not an error at this layer.
pub fn resolve_phone_numbers(contacts: &Vec<UserContact>) -> (r: Vec<String>)
    ensures
        phone_list_ok(r.deep_view(), contacts@),
{
    let voice = "voice".to_owned();
    let sms = "sms".to_owned();
    let mut numbers: Vec<String> = Vec::new();
    proof {
        assert(contacts@.take(0) =~= Seq::<UserContact>::empty());
        assert(candidate_numbers(contacts@.take(0)) =~= Seq::<Seq<char>>::empty());
    }
    let mut i: usize = 0;
    while i < contacts.len()
        invariant
            i <= contacts@.len(),
            voice@ == "voice"@,
            sms@ == "sms"@,
            strictly_sorted(numbers.deep_view()),
            forall|x: Seq<char>|
                #[trigger] numbers.deep_view().contains(x) <==> candidate_numbers(
                    contacts@.take(i as int),
                ).contains(x),
        decreases contacts@.len() - i,
    {
        let ghost pre = contacts@.take(i as int);
        let ghost entry = contacts@[i as int];
        let ghost old_numbers = numbers.deep_view();
        let contact = &contacts[i];
        let relevant = contact.contact_method == voice || contact.contact_method == sms;
        proof {
            assert(relevant == relevant_method(entry.contact_method@));
            assert(contacts@.take(i + 1) =~= pre.push(entry));
            pre.lemma_filter_push(entry, |c: UserContact| relevant_method(c.contact_method@));
        }
        if relevant {
            let number = format_phone_number(contact.to.clone());
            insert_number(&mut numbers, number);
            proof {
                let val = normalize_spec(entry.to@);
                let cand_new = candidate_numbers(contacts@.take(i + 1));
                let cand_old = candidate_numbers(pre);
                assert(cand_new =~= cand_old.push(val));
                assert forall|x: Seq<char>| #[trigger] cand_new.contains(x) implies (
                cand_old.contains(x) || x == val) by {
                    let k = choose|k: int| 0 <= k < cand_new.len() && cand_new[k] == x;
                    if k < cand_old.len() {
                        assert(cand_old[k] == x);
                    }
                }
                assert forall|x: Seq<char>| cand_old.contains(x) implies cand_new.contains(x) by {
                    let k = choose|k: int| 0 <= k < cand_old.len() && cand_old[k] == x;
                    assert(cand_new[k] == x);
                }
                assert(cand_new.contains(val)) by {
                    assert(cand_new[cand_new.len() - 1] == val);
                }
            }
        } else {
            proof {
                assert(candidate_numbers(contacts@.take(i + 1)) =~= candidate_numbers(pre));
            }
        }
        i = i + 1;
    }
    proof {
        assert(contacts@.take(contacts@.len() as int) =~= contacts@);
    }
    numbers
}

} // verus!
