use vstd::prelude::*;

use crate::survey::{Survey, SurveyModel};

verus! {

/// The surveys of `s` by id; where two share an id, the later one counts.
pub open spec fn survey_map(s: Seq<SurveyModel>) -> Map<Seq<char>, SurveyModel>
    decreases s.len(),
{
    if s.len() == 0 {
        Map::empty()
    } else {
        survey_map(s.drop_last()).insert(s.last().id, s.last())
    }
}

/// No two surveys of `s` share an id.
pub open spec fn distinct_ids(s: Seq<SurveyModel>) -> bool {
    forall|i: int, j: int| 0 <= i < j < s.len() ==> s[i].id != s[j].id
}

/// The ids of `survey_map(s)` are those of `s`.
pub proof fn lemma_survey_map_dom(s: Seq<SurveyModel>, id: Seq<char>)
    ensures
        survey_map(s).contains_key(id) <==> exists|i: int| 0 <= i < s.len() && s[i].id == id,
    decreases s.len(),
{
    if s.len() > 0 {
        lemma_survey_map_dom(s.drop_last(), id);
        if survey_map(s).contains_key(id) && id != s.last().id {
            let i = choose|i: int| 0 <= i < s.len() - 1 && s.drop_last()[i].id == id;
            assert(s[i].id == id);
        }
        if exists|i: int| 0 <= i < s.len() && s[i].id == id {
            let i = choose|i: int| 0 <= i < s.len() && s[i].id == id;
            if i < s.len() - 1 {
                assert(s.drop_last()[i].id == id);
            }
        }
    }
}

/// With distinct ids, each survey of `s` is found under its id.
pub proof fn lemma_survey_map_index(s: Seq<SurveyModel>, i: int)
    requires
        distinct_ids(s),
        0 <= i < s.len(),
    ensures
        survey_map(s).contains_key(s[i].id),
        survey_map(s)[s[i].id] == s[i],
    decreases s.len(),
{
    if i < s.len() - 1 {
        lemma_survey_map_index(s.drop_last(), i);
    }
}

/// With distinct ids, removing the survey at `i` removes its id.
pub proof fn lemma_survey_map_remove(s: Seq<SurveyModel>, i: int)
    requires
        distinct_ids(s),
        0 <= i < s.len(),
    ensures
        survey_map(s.remove(i)) == survey_map(s).remove(s[i].id),
        distinct_ids(s.remove(i)),
    decreases s.len(),
{
    let last = s.last();
    if i == s.len() - 1 {
        assert(s.remove(i) =~= s.drop_last());
        lemma_survey_map_dom(s.drop_last(), last.id);
        assert(survey_map(s.remove(i)) =~= survey_map(s).remove(s[i].id));
    } else {
        lemma_survey_map_remove(s.drop_last(), i);
        assert(s.remove(i) =~= s.drop_last().remove(i).push(last));
        assert(s.remove(i).drop_last() =~= s.drop_last().remove(i));
        assert(survey_map(s.remove(i)) =~= survey_map(s).remove(s[i].id));
    }
}

/// The surveys that the server knows, by id.
pub struct SurveyStore {
    surveys: Vec<Survey>,
}

/// What each survey holds.
pub open spec fn survey_models(s: Seq<Survey>) -> Seq<SurveyModel> {
    s.map_values(|x: Survey| x@)
}

impl View for SurveyStore {
    type V = Map<Seq<char>, SurveyModel>;

    closed spec fn view(&self) -> Map<Seq<char>, SurveyModel> {
        survey_map(survey_models(self.surveys@))
    }
}

impl SurveyStore {
    /// No two stored surveys share an id.
    pub closed spec fn wf(&self) -> bool {
        distinct_ids(survey_models(self.surveys@))
    }

    /// A store without surveys.
    pub fn new() -> (r: SurveyStore)
        ensures
            r.wf(),
            r@ == Map::<Seq<char>, SurveyModel>::empty(),
    {
        let r = SurveyStore { surveys: Vec::new() };
        assert(survey_models(r.surveys@) =~= Seq::<SurveyModel>::empty());
        r
    }

    /// The position of the survey whose id is `id`, if there is one.
    fn find(&self, id: &str) -> (r: Option<usize>)
        requires
            self.wf(),
        ensures
            r is None ==> !self@.contains_key(id@),
            r matches Some(i) ==> i < self.surveys.len() && self.surveys@[i as int]@.id == id@
                && self@.contains_key(id@) && self@[id@] == self.surveys@[i as int]@,
    {
        let target = id.to_owned();
        let mut i: usize = 0;
        while i < self.surveys.len()
            invariant
                i <= self.surveys.len(),
                self.wf(),
                target@ == id@,
                forall|j: int| 0 <= j < i ==> survey_models(self.surveys@)[j].id != id@,
            decreases self.surveys.len() - i,
        {
            assert(survey_models(self.surveys@)[i as int] == self.surveys@[i as int]@);
            if self.surveys[i].id == target {
                proof {
                    lemma_survey_map_index(survey_models(self.surveys@), i as int);
                }
                return Some(i);
            }
            i = i + 1;
        }
        proof {
            lemma_survey_map_dom(survey_models(self.surveys@), id@);
        }
        None
    }

    /// The survey whose id is `id`, if there is one.
    pub fn get(&self, id: &str) -> (r: Option<&Survey>)
        requires
            self.wf(),
        ensures
            r is Some <==> self@.contains_key(id@),
            r matches Some(s) ==> s@ == self@[id@],
    {
        match self.find(id) {
            Some(i) => Some(&self.surveys[i]),
            None => None,
        }
    }

    /// Stores `s` under its id, in place of any survey with that id.
    pub fn insert(&mut self, s: Survey)
        requires
            old(self).wf(),
        ensures
            final(self).wf(),
            final(self)@ == old(self)@.insert(s@.id, s@),
    {
        let id = s.id.clone();
        match self.find(id.as_str()) {
            Some(i) => {
                proof {
                    lemma_survey_map_remove(survey_models(self.surveys@), i as int);
                }
                let ghost before = self@;
                let _old = self.surveys.remove(i);
                assert(survey_models(self.surveys@) =~= survey_models(old(self).surveys@).remove(
                    i as int,
                ));
                assert(self@ == before.remove(id@));
            },
            None => {
                assert(old(self)@.remove(id@) =~= old(self)@);
            },
        }
        let ghost mid = survey_models(self.surveys@);
        assert(survey_map(mid) == old(self)@.remove(id@));
        proof {
            lemma_survey_map_dom(mid, id@);
        }
        assert(!survey_map(mid).contains_key(id@));
        self.surveys.push(s);
        assert(survey_models(self.surveys@) =~= mid.push(s@));
        assert(mid.push(s@).drop_last() =~= mid);
        assert(distinct_ids(mid.push(s@))) by {
            assert forall|i: int, j: int| 0 <= i < j < mid.len() + 1 implies mid.push(s@)[i].id
                != mid.push(s@)[j].id by {
                if j == mid.len() {
                    assert(mid[i].id != id@);
                }
            }
        }
        assert(self@ =~= old(self)@.insert(s@.id, s@));
    }

    /// The survey whose id is `id`, where `key` is its key.
    pub fn authorized(&self, id: &str, key: &str) -> (r: Option<&Survey>)
        requires
            self.wf(),
        ensures
            r is Some <==> self@.contains_key(id@) && self@[id@].key == key@,
            r matches Some(s) ==> s@ == self@[id@],
    {
        match self.find(id) {
            Some(i) => {
                let k = key.to_owned();
                if self.surveys[i].key == k {
                    Some(&self.surveys[i])
                } else {
                    None
                }
            },
            None => None,
        }
    }

    /// Takes out the survey whose id is `id`, where `key` is its key; leaves
    /// the store as it is otherwise.
    pub fn remove_authorized(&mut self, id: &str, key: &str) -> (r: Option<Survey>)
        requires
            old(self).wf(),
        ensures
            final(self).wf(),
            r is Some <==> old(self)@.contains_key(id@) && old(self)@[id@].key == key@,
            r matches Some(s) ==> s@ == old(self)@[id@] && final(self)@ == old(self)@.remove(
                id@,
            ),
            r is None ==> final(self)@ == old(self)@,
    {
        match self.find(id) {
            Some(i) => {
                let k = key.to_owned();
                if self.surveys[i].key == k {
                    proof {
                        lemma_survey_map_remove(survey_models(self.surveys@), i as int);
                    }
                    let s = self.surveys.remove(i);
                    assert(survey_models(self.surveys@) =~= survey_models(
                        old(self).surveys@,
                    ).remove(i as int));
                    Some(s)
                } else {
                    None
                }
            },
            None => None,
        }
    }
}

} // verus!
