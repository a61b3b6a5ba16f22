//! The on-call resolver's decision logic: turn a schedule identifier and the
//! roster data fetched for it into the assembled alert information, selecting
//! the primary contact and keeping the roster's recipient order.

use vstd::prelude::*;
use crate::contacts::UserContact;
use crate::contacts::candidate_numbers;
use crate::contacts::phone_list_ok;
use crate::contacts::resolve_phone_numbers;
use crate::error::Error;
use crate::order::lemma_strictly_sorted_unique;
use crate::schedule::Schedule;
use crate::schedule::resolve_schedule_id;

verus! {

/// A person and their deduplicated, ascending phone numbers.
#[derive(Clone, Debug, PartialEq, Eq, Hash)]
pub struct UserPhoneNumber {
    pub name: String,
    pub phone: Vec<String>,
}

/// A request for a schedule by its opaque id.
#[derive(Clone, Debug, PartialEq, Eq, Hash)]
pub struct ScheduleRequestById {
    pub id: String,
}

/// A request for a schedule by its display name.
#[derive(Clone, Debug, PartialEq, Eq, Hash)]
pub struct ScheduleRequestByName {
    pub name: String,
}

/// How a caller identifies a schedule: by id or by name, never both.
#[derive(Clone, Debug, PartialEq, Eq, Hash)]
pub enum ScheduleIdentifier {
    ScheduleById(ScheduleRequestById),
    ScheduleByName(ScheduleRequestByName),
}

/// The assembled answer: the primary on-call contact and the full roster of
/// on-call people with their numbers.
#[derive(Clone, Debug, PartialEq, Eq, Hash)]
pub struct AlertInfo {
    pub username: String,
    pub phone_number: String,
    pub full_information: Vec<UserPhoneNumber>,
}

/// The schedule id an identifier stands for, given the provider's search
/// result for its name: a by-id identifier carries the id itself and consults
/// no search; a by-name identifier resolves only when the search matched
/// exactly one schedule.
pub open spec fn resolved_schedule_id(
    identifier: ScheduleIdentifier,
    schedules: Seq<Schedule>,
) -> Option<Seq<char>> {
    match identifier {
        ScheduleIdentifier::ScheduleById(by_id) => Some(by_id.id@),
        ScheduleIdentifier::ScheduleByName(_) => if schedules.len() == 1 {
            Some(schedules[0].id@)
        } else {
            None
        },
    }
}

/// Resolves an identifier to a schedule id. A by-id identifier is used
/// directly, without validating its existence; a by-name identifier is held
/// against the provider's search result for that name, and any failure there
/// propagates unchanged.
pub fn resolve_schedule_identifier(
    identifier: &ScheduleIdentifier,
    schedules: &Vec<Schedule>,
) -> (r: Result<String, Error>)
    ensures
        r is Ok <==> resolved_schedule_id(*identifier, schedules@) is Some,
        r matches Ok(id) ==> Some(id@) == resolved_schedule_id(*identifier, schedules@),
        identifier matches ScheduleIdentifier::ScheduleByName(by_name) ==> ({
            &&& schedules@.len() == 0 ==> (r matches Err(e) && e matches Error::ScheduleNotFound {
                schedule_name: n,
            } && n@ == by_name.name@)
            &&& schedules@.len() > 1 ==> (r matches Err(e) && e
                matches Error::TooManySchedulesFound { schedule_name: n, schedules_found: c } && n@
                == by_name.name@ && c == schedules@.len())
        }),
{
    match identifier {
        ScheduleIdentifier::ScheduleById(by_id) => Ok(by_id.id.clone()),
        ScheduleIdentifier::ScheduleByName(by_name) => resolve_schedule_id(
            &by_name.name,
            schedules,
        ),
    }
}

/// The Ok-outcome of on-call resolution, stated over the fetched roster data:
/// one entry per recipient, in roster order, each holding that person's
/// resolved numbers; the primary contact is the first recipient and their
/// first (least) number.
pub open spec fn alert_info_ok(
    info: AlertInfo,
    recipients: Seq<String>,
    profiles: Seq<Vec<UserContact>>,
) -> bool {
    &&& info.full_information@.len() == recipients.len()
    &&& forall|i: int|
        0 <= i < recipients.len() ==> (#[trigger] info.full_information@[i]).name@
            == recipients[i]@
    &&& forall|i: int|
        0 <= i < recipients.len() ==> phone_list_ok(
            (#[trigger] info.full_information@[i]).phone.deep_view(),
            profiles[i]@,
        )
    &&& recipients.len() > 0
    &&& info.username@ == recipients[0]@
    &&& info.full_information@[0].phone@.len() > 0
    &&& info.phone_number@ == info.full_information@[0].phone@[0]@
}

/// Assembles the final answer from the per-recipient entries. An empty list
/// fails with "no one on call"; a first entry without a number fails with "no
/// phone number" naming that person; otherwise the first entry's name and
/// first number become the primary contact.
pub fn assemble_alert_info(result_list: Vec<UserPhoneNumber>) -> (r: Result<AlertInfo, Error>)
    ensures
        result_list@.len() == 0 ==> (r matches Err(e) && e == Error::NoOnCallPerson),
        result_list@.len() > 0 && result_list@[0].phone@.len() == 0 ==> (r matches Err(e) && e
            matches Error::NoPhoneNumber { username: u } && u@ == result_list@[0].name@),
        result_list@.len() > 0 && result_list@[0].phone@.len() > 0 ==> (r matches Ok(info)
            && info.username@ == result_list@[0].name@ && info.phone_number@
            == result_list@[0].phone@[0]@ && info.full_information@ == result_list@),
{
    if result_list.len() == 0 {
        return Err(Error::NoOnCallPerson);
    }
    let first = &result_list[0];
    if first.phone.len() == 0 {
        return Err(Error::NoPhoneNumber { username: first.name.clone() });
    }
    let username = first.name.clone();
    let phone_number = first.phone[0].clone();
    Ok(AlertInfo { username, phone_number, full_information: result_list })
}

/// Resolves the people on call from the roster data: `recipients` is the
/// flattened recipient list the provider returned for the schedule, and
/// `profiles[i]` is the contact profile fetched for `recipients[i]`. An empty
/// recipient list fails with "no one on call"; a first recipient without a
/// usable number fails with "no phone number" naming them; otherwise every
/// recipient's numbers are resolved, in roster order.
pub fn resolve_on_call(recipients: &Vec<String>, profiles: &Vec<Vec<UserContact>>) -> (r: Result<
    AlertInfo,
    Error,
>)
    requires
        profiles@.len() == recipients@.len(),
    ensures
        recipients@.len() == 0 ==> (r matches Err(e) && e == Error::NoOnCallPerson),
        recipients@.len() > 0 && candidate_numbers(profiles@[0]@).len() == 0 ==> (r matches Err(e)
            && e matches Error::NoPhoneNumber { username: u } && u@ == recipients@[0]@),
        recipients@.len() > 0 && candidate_numbers(profiles@[0]@).len() > 0 ==> (r matches Ok(info)
            && alert_info_ok(info, recipients@, profiles@)),
{
    if recipients.len() == 0 {
        return Err(Error::NoOnCallPerson);
    }
    let mut result_list: Vec<UserPhoneNumber> = Vec::new();
    let mut i: usize = 0;
    while i < recipients.len()
        invariant
            i <= recipients@.len(),
            profiles@.len() == recipients@.len(),
            result_list@.len() == i,
            forall|k: int|
                0 <= k < i ==> (#[trigger] result_list@[k]).name@ == recipients@[k]@,
            forall|k: int|
                0 <= k < i ==> phone_list_ok(
                    (#[trigger] result_list@[k]).phone.deep_view(),
                    profiles@[k]@,
                ),
        decreases recipients@.len() - i,
    {
        let phone = resolve_phone_numbers(&profiles[i]);
        result_list.push(UserPhoneNumber { name: recipients[i].clone(), phone });
        i = i + 1;
    }
    proof {
        let first_list = result_list@[0].phone.deep_view();
        let first_cand = candidate_numbers(profiles@[0]@);
        if first_cand.len() > 0 {
            assert(first_cand.contains(first_cand[0]));
            assert(first_list.contains(first_cand[0]));
        }
        if first_list.len() > 0 {
            assert(first_list.contains(first_list[0]));
            assert(first_cand.contains(first_list[0]));
        }
        assert(result_list@[0].phone@.len() == first_list.len());
    }
    assemble_alert_info(result_list)
}

/// The numbers of a roster of people, flattened in roster order.
pub open spec fn flattened_numbers_of(people: Seq<UserPhoneNumber>) -> Seq<Seq<char>>
    decreases people.len(),
{
    if people.len() == 0 {
        Seq::<Seq<char>>::empty()
    } else {
        people[0].phone.deep_view() + flattened_numbers_of(people.drop_first())
    }
}

/// The numbers the alert sender receives: every number of every on-call
/// person, flattened in roster order.
pub open spec fn flattened_numbers(info: AlertInfo) -> Seq<Seq<char>> {
    flattened_numbers_of(info.full_information@)
}

/// Flattening one more person appends that person's numbers.
proof fn lemma_flattened_numbers_push(people: Seq<UserPhoneNumber>, person: UserPhoneNumber)
    ensures
        flattened_numbers_of(people.push(person)) =~= flattened_numbers_of(people)
            + person.phone.deep_view(),
    decreases people.len(),
{
    let appended = people.push(person);
    assert(appended.len() == people.len() + 1);
    if people.len() == 0 {
        assert(appended[0] == person);
        assert(appended.drop_first() =~= Seq::<UserPhoneNumber>::empty());
        assert(flattened_numbers_of(appended.drop_first()) =~= Seq::<Seq<char>>::empty());
        assert(flattened_numbers_of(appended) =~= person.phone.deep_view());
        assert(flattened_numbers_of(people) =~= Seq::<Seq<char>>::empty());
    } else {
        let rest = people.drop_first();
        assert(appended.drop_first() =~= rest.push(person));
        lemma_flattened_numbers_push(rest, person);
        assert(appended[0] == people[0]);
        assert(flattened_numbers_of(appended) =~= people[0].phone.deep_view()
            + flattened_numbers_of(rest.push(person)));
        assert(flattened_numbers_of(appended) =~= people[0].phone.deep_view() + (
        flattened_numbers_of(rest) + person.phone.deep_view()));
        assert(flattened_numbers_of(people) =~= people[0].phone.deep_view()
            + flattened_numbers_of(rest));
    }
}

/// Collects all phone numbers of the alert into one list, in roster order.
pub fn collect_alert_numbers(info: &AlertInfo) -> (r: Vec<String>)
    ensures
        r.deep_view() == flattened_numbers(*info),
{
    let people = &info.full_information;
    let mut r: Vec<String> = Vec::new();
    proof {
        assert(people@.take(0) =~= Seq::<UserPhoneNumber>::empty());
    }
    let mut i: usize = 0;
    while i < people.len()
        invariant
            i <= people@.len(),
            people@ == info.full_information@,
            r.deep_view() =~= flattened_numbers_of(people@.take(i as int)),
        decreases people@.len() - i,
    {
        let ghost before = r.deep_view();
        let person = &people[i];
        let mut j: usize = 0;
        while j < person.phone.len()
            invariant
                j <= person.phone@.len(),
                r.deep_view() =~= before + person.phone.deep_view().take(j as int),
            decreases person.phone@.len() - j,
        {
            let ghost pre_dv = r.deep_view();
            r.push(person.phone[j].clone());
            proof {
                let dv = person.phone.deep_view();
                assert(r.deep_view() =~= pre_dv.push(dv[j as int]));
                assert(pre_dv.push(dv[j as int]) =~= before + dv.take(j as int).push(dv[j as int]));
                assert(dv.take(j as int).push(dv[j as int]) =~= dv.take(j as int + 1));
            }
            j = j + 1;
        }
        proof {
            assert(person.phone.deep_view().take(person.phone@.len() as int) =~= person
                .phone
                .deep_view());
            assert(people@.take(i as int).push(people@[i as int]) =~= people@.take(i as int + 1));
            lemma_flattened_numbers_push(people@.take(i as int), people@[i as int]);
        }
        i = i + 1;
    }
    proof {
        assert(people@.take(people@.len() as int) =~= people@);
    }
    r
}

/// Once a schedule name has resolved to an id, the by-id identifier carrying
/// that id resolves to the same schedule id, whatever search result
/// accompanies it: both paths continue from the same id.
pub proof fn lemma_by_name_matches_by_id(
    by_name: ScheduleRequestByName,
    by_id: ScheduleRequestById,
    schedules: Seq<Schedule>,
    other: Seq<Schedule>,
)
    requires
        resolved_schedule_id(ScheduleIdentifier::ScheduleByName(by_name), schedules) == Some(
            by_id.id@,
        ),
    ensures
        resolved_schedule_id(ScheduleIdentifier::ScheduleById(by_id), other)
            == resolved_schedule_id(ScheduleIdentifier::ScheduleByName(by_name), schedules),
{
}

/// On-call resolution is a function of the roster data alone: any two alerts
/// that satisfy the contract for the same recipients and profiles agree on
/// the primary contact and, person by person, on every phone number. Together
/// with `lemma_by_name_matches_by_id`, a by-name identifier and the by-id
/// identifier it resolves to yield the same alert for the same schedule id.
pub proof fn lemma_resolution_deterministic(
    a: AlertInfo,
    b: AlertInfo,
    recipients: Seq<String>,
    profiles: Seq<Vec<UserContact>>,
)
    requires
        alert_info_ok(a, recipients, profiles),
        alert_info_ok(b, recipients, profiles),
    ensures
        a.username@ == b.username@,
        a.phone_number@ == b.phone_number@,
        a.full_information@.len() == b.full_information@.len(),
        forall|i: int|
            0 <= i < recipients.len() ==> (#[trigger] a.full_information@[i]).name@
                == b.full_information@[i].name@,
        forall|i: int|
            0 <= i < recipients.len() ==> (#[trigger] a.full_information@[i]).phone.deep_view()
                == b.full_information@[i].phone.deep_view(),
{
    assert forall|i: int| 0 <= i < recipients.len() implies (
    #[trigger] a.full_information@[i]).phone.deep_view()
        == b.full_information@[i].phone.deep_view() by {
        lemma_strictly_sorted_unique(
            a.full_information@[i].phone.deep_view(),
            b.full_information@[i].phone.deep_view(),
        );
    }
    assert(a.full_information@[0].phone@[0]@ == a.full_information@[0].phone.deep_view()[0]);
    assert(b.full_information@[0].phone@[0]@ == b.full_information@[0].phone.deep_view()[0]);
}

} // verus!
