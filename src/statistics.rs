use vstd::prelude::*;
use crate::error::{text, LMSError, LMSResult};
use crate::grade::{Grade, GradeType};
use crate::grades::{course_grades, get_course_grades, get_student_grades, may_grade, opt_text, selected_grades, validate_grading_permissions};
use crate::tenant::{valid_grades, TenantState};

verus! {

/// A grade as a percentage in basis points (hundredths of a percent),
/// rounded down: 85.5 out of 100 is 8550.
pub open spec fn percent(g: Grade) -> nat {
    ((g.score * 10000) / (g.max_score as int)) as nat
}

/// Sum of the percentages of `gs`.
pub open spec fn sum_percent(gs: Seq<Grade>) -> nat
    decreases gs.len(),
{
    if gs.len() == 0 {
        0
    } else {
        sum_percent(gs.drop_last()) + percent(gs.last())
    }
}

/// Mean percentage of `gs`, rounded down; 0 for no grades.
pub open spec fn average_percent(gs: Seq<Grade>) -> nat {
    if gs.len() == 0 {
        0
    } else {
        sum_percent(gs) / gs.len()
    }
}

proof fn lemma_percent_bound(g: Grade)
    requires
        g.max_score > 0,
        10 * g.score <= 11 * g.max_score,
    ensures
        percent(g) <= 11000,
{
    assert(g.score * 10000 <= 11000 * g.max_score) by (nonlinear_arith)
        requires
            10 * g.score <= 11 * g.max_score,
    ;
    assert((g.score * 10000) / (g.max_score as int) <= 11000) by (nonlinear_arith)
        requires
            g.score * 10000 <= 11000 * g.max_score,
            g.max_score > 0,
    ;
}

/// Percentage of one grade.
pub fn grade_percent(g: &Grade) -> (r: u64)
    requires
        g.max_score > 0,
        10 * g.score <= 11 * g.max_score,
    ensures
        r == percent(*g),
        r <= 11000,
{
    proof {
        lemma_percent_bound(*g);
    }
    ((g.score as u128 * 10000) / (g.max_score as u128)) as u64
}

/// Mean percentage of a list of grades; 0 when there are none.
pub fn calculate_type_average(grades: &Vec<Grade>) -> (r: u64)
    requires
        valid_grades(grades@),
    ensures
        r == average_percent(grades@),
        r <= 11000,
{
    if grades.len() == 0 {
        return 0;
    }
    let mut total: u128 = 0;
    let mut i: usize = 0;
    while i < grades.len()
        invariant
            i <= grades@.len(),
            valid_grades(grades@),
            total == sum_percent(grades@.take(i as int)),
            total <= 11000 * i,
        decreases grades.len() - i,
    {
        assert(grades@.take(i as int + 1).drop_last() =~= grades@.take(i as int));
        let p = grade_percent(&grades[i]);
        total = total + p as u128;
        i += 1;
    }
    assert(grades@.take(grades@.len() as int) =~= grades@);
    let n = grades.len() as u128;
    assert(total / n <= 11000) by (nonlinear_arith)
        requires
            total <= 11000 * n,
            n > 0,
    ;
    (total / n) as u64
}

/// Letter for a percentage in basis points; bands are half-open at
/// 97, 93, 90, 87, 83, 80, 77, 73, 70, 67, 63 and 60 percent.
pub open spec fn letter_of(p: nat) -> Seq<char> {
    if p >= 9700 { "A+"@ }
    else if p >= 9300 { "A"@ }
    else if p >= 9000 { "A-"@ }
    else if p >= 8700 { "B+"@ }
    else if p >= 8300 { "B"@ }
    else if p >= 8000 { "B-"@ }
    else if p >= 7700 { "C+"@ }
    else if p >= 7300 { "C"@ }
    else if p >= 7000 { "C-"@ }
    else if p >= 6700 { "D+"@ }
    else if p >= 6300 { "D"@ }
    else if p >= 6000 { "D-"@ }
    else { "F"@ }
}

/// The letter grade for a percentage given in basis points.
pub fn calculate_letter_grade(percentage: u64) -> (r: String)
    ensures
        r@ == letter_of(percentage as nat),
{
    if percentage >= 9700 { text("A+") }
    else if percentage >= 9300 { text("A") }
    else if percentage >= 9000 { text("A-") }
    else if percentage >= 8700 { text("B+") }
    else if percentage >= 8300 { text("B") }
    else if percentage >= 8000 { text("B-") }
    else if percentage >= 7700 { text("C+") }
    else if percentage >= 7300 { text("C") }
    else if percentage >= 7000 { text("C-") }
    else if percentage >= 6700 { text("D+") }
    else if percentage >= 6300 { text("D") }
    else if percentage >= 6000 { text("D-") }
    else { text("F") }
}

/// Weight of each kind of grade, in basis points of the whole (2000 is
/// 0.20). Labs and homework count as assignments; extra credit has no
/// weight.
#[derive(Debug, Clone, Copy, PartialEq, Eq, Structural)]
pub struct GradeWeights {
    pub quiz_weight: u32,
    pub assignment_weight: u32,
    pub participation_weight: u32,
    pub final_weight: u32,
    pub midterm_weight: u32,
    pub project_weight: u32,
}

/// The weights used when none are given.
pub open spec fn default_weights() -> GradeWeights {
    GradeWeights {
        quiz_weight: 2000,
        assignment_weight: 3000,
        participation_weight: 1000,
        final_weight: 2500,
        midterm_weight: 1500,
        project_weight: 0,
    }
}

/// Weight of grade kind `t` under `w`.
pub open spec fn weight_of(w: GradeWeights, t: GradeType) -> nat {
    match t {
        GradeType::Quiz => w.quiz_weight as nat,
        GradeType::Assignment => w.assignment_weight as nat,
        GradeType::Participation => w.participation_weight as nat,
        GradeType::Final => w.final_weight as nat,
        GradeType::Midterm => w.midterm_weight as nat,
        GradeType::Project => w.project_weight as nat,
        GradeType::Lab => w.assignment_weight as nat,
        GradeType::Homework => w.assignment_weight as nat,
        GradeType::ExtraCredit => 0,
    }
}

impl Default for GradeWeights {
    fn default() -> (r: Self)
        ensures
            r == default_weights(),
    {
        GradeWeights {
            quiz_weight: 2000,
            assignment_weight: 3000,
            participation_weight: 1000,
            final_weight: 2500,
            midterm_weight: 1500,
            project_weight: 0,
        }
    }
}

impl GradeWeights {
    pub fn new(quiz: u32, assignment: u32, participation: u32, final_exam: u32, midterm: u32, project: u32) -> (r: Self)
        ensures
            r == (GradeWeights {
                quiz_weight: quiz,
                assignment_weight: assignment,
                participation_weight: participation,
                final_weight: final_exam,
                midterm_weight: midterm,
                project_weight: project,
            }),
    {
        GradeWeights {
            quiz_weight: quiz,
            assignment_weight: assignment,
            participation_weight: participation,
            final_weight: final_exam,
            midterm_weight: midterm,
            project_weight: project,
        }
    }

    /// Sum of the six weights.
    pub open spec fn total(&self) -> int {
        self.quiz_weight + self.assignment_weight + self.participation_weight + self.final_weight
            + self.midterm_weight + self.project_weight
    }

    /// Accepts weights that sum to 1.0 within 0.01 (10000 within 100).
    pub fn validate(&self) -> (r: Result<(), String>)
        ensures
            r is Ok == (9900 <= self.total() <= 10100),
    {
        let total: u64 = self.quiz_weight as u64 + self.assignment_weight as u64 + self.participation_weight as u64
            + self.final_weight as u64 + self.midterm_weight as u64 + self.project_weight as u64;
        if total < 9900 || total > 10100 {
            Err(text("Grade weights must sum to 1.0"))
        } else {
            Ok(())
        }
    }

    /// Weight of grade kind `grade_type`.
    pub fn get_weight(&self, grade_type: &GradeType) -> (r: u32)
        ensures
            r as nat == weight_of(*self, *grade_type),
    {
        match grade_type {
            GradeType::Quiz => self.quiz_weight,
            GradeType::Assignment => self.assignment_weight,
            GradeType::Participation => self.participation_weight,
            GradeType::Final => self.final_weight,
            GradeType::Midterm => self.midterm_weight,
            GradeType::Project => self.project_weight,
            GradeType::Lab => self.assignment_weight,
            GradeType::Homework => self.assignment_weight,
            GradeType::ExtraCredit => 0,
        }
    }
}

/// The grade kinds, in the order a breakdown lists them.
pub open spec fn kind_at(k: int) -> GradeType {
    if k == 0 { GradeType::Quiz }
    else if k == 1 { GradeType::Assignment }
    else if k == 2 { GradeType::Participation }
    else if k == 3 { GradeType::Final }
    else if k == 4 { GradeType::Midterm }
    else if k == 5 { GradeType::Project }
    else if k == 6 { GradeType::Lab }
    else if k == 7 { GradeType::Homework }
    else { GradeType::ExtraCredit }
}

fn kind_at_exec(k: usize) -> (r: GradeType)
    requires
        k < 9,
    ensures
        r == kind_at(k as int),
{
    if k == 0 { GradeType::Quiz }
    else if k == 1 { GradeType::Assignment }
    else if k == 2 { GradeType::Participation }
    else if k == 3 { GradeType::Final }
    else if k == 4 { GradeType::Midterm }
    else if k == 5 { GradeType::Project }
    else if k == 6 { GradeType::Lab }
    else if k == 7 { GradeType::Homework }
    else { GradeType::ExtraCredit }
}

/// The grades of `gs` of kind `t`, in order.
pub open spec fn of_kind(gs: Seq<Grade>, t: GradeType) -> Seq<Grade>
    decreases gs.len(),
{
    if gs.len() == 0 {
        seq![]
    } else {
        let rest = of_kind(gs.drop_last(), t);
        if gs.last().grade_type == t {
            rest.push(gs.last())
        } else {
            rest
        }
    }
}

/// Whether kind `t` counts in the weighted average of `gs`: it has grades
/// and a positive weight.
pub open spec fn kind_counts(gs: Seq<Grade>, w: GradeWeights, t: GradeType) -> bool {
    of_kind(gs, t).len() > 0 && weight_of(w, t) > 0
}

/// Sum, over the first `k` kinds that count, of the kind's mean percentage
/// times its weight.
pub open spec fn weighted_sum(gs: Seq<Grade>, w: GradeWeights, k: int) -> nat
    decreases k,
{
    if k <= 0 {
        0
    } else {
        weighted_sum(gs, w, k - 1) + if kind_counts(gs, w, kind_at(k - 1)) {
            average_percent(of_kind(gs, kind_at(k - 1))) * weight_of(w, kind_at(k - 1))
        } else {
            0
        }
    }
}

/// Sum of the weights of the first `k` kinds that count: the weights
/// actually used.
pub open spec fn weight_used(gs: Seq<Grade>, w: GradeWeights, k: int) -> nat
    decreases k,
{
    if k <= 0 {
        0
    } else {
        weight_used(gs, w, k - 1) + if kind_counts(gs, w, kind_at(k - 1)) {
            weight_of(w, kind_at(k - 1))
        } else {
            0
        }
    }
}

/// The breakdown of the weighted average over the first `k` kinds: for
/// each kind that counts, its mean percentage, weight and number of grades.
pub open spec fn kind_breakdown(gs: Seq<Grade>, w: GradeWeights, k: int) -> Seq<(GradeType, nat, nat, nat)>
    decreases k,
{
    if k <= 0 {
        seq![]
    } else {
        let rest = kind_breakdown(gs, w, k - 1);
        let t = kind_at(k - 1);
        if kind_counts(gs, w, t) {
            rest.push((t, average_percent(of_kind(gs, t)), weight_of(w, t), of_kind(gs, t).len()))
        } else {
            rest
        }
    }
}

/// `v` lists the breakdown `b`, each entry with its letter.
pub open spec fn lists_breakdown(v: Seq<(GradeType, GradeTypeBreakdown)>, b: Seq<(GradeType, nat, nat, nat)>) -> bool {
    &&& v.len() == b.len()
    &&& forall|m: int| 0 <= m < v.len() ==> {
        &&& (#[trigger] v[m]).0 == b[m].0
        &&& v[m].1.average == b[m].1
        &&& v[m].1.weight == b[m].2
        &&& v[m].1.count == b[m].3
        &&& v[m].1.letter_grade@ == letter_of(b[m].1)
    }
}

/// The weighted average of `gs`: weighted mean percentages divided by the
/// weights actually used (0 if no kind counts).
pub open spec fn weighted_average(gs: Seq<Grade>, w: GradeWeights) -> nat {
    if weight_used(gs, w, 9) == 0 {
        0
    } else {
        weighted_sum(gs, w, 9) / weight_used(gs, w, 9)
    }
}

proof fn lemma_valid_sub(gs: Seq<Grade>, t: GradeType)
    requires
        valid_grades(gs),
    ensures
        valid_grades(of_kind(gs, t)),
        of_kind(gs, t).len() <= gs.len(),
    decreases gs.len(),
{
    if gs.len() > 0 {
        assert(valid_grades(gs.drop_last())) by {
            assert forall|i: int| 0 <= i < gs.drop_last().len() implies (#[trigger] gs.drop_last()[i]).max_score > 0
                && 10 * gs.drop_last()[i].score <= 11 * gs.drop_last()[i].max_score by {
                assert(gs.drop_last()[i] == gs[i]);
            }
        }
        lemma_valid_sub(gs.drop_last(), t);
        let rest = of_kind(gs.drop_last(), t);
        if gs.last().grade_type == t {
            assert forall|i: int| 0 <= i < rest.push(gs.last()).len() implies (#[trigger] rest.push(gs.last())[i]).max_score > 0
                && 10 * rest.push(gs.last())[i].score <= 11 * rest.push(gs.last())[i].max_score by {
                if i < rest.len() {
                    assert(rest.push(gs.last())[i] == rest[i]);
                }
            }
        }
    }
}

/// The grades of kind `t`.
pub fn grades_of_kind(gs: &Vec<Grade>, t: GradeType) -> (r: Vec<Grade>)
    ensures
        r@ == of_kind(gs@, t),
{
    let mut r: Vec<Grade> = Vec::new();
    let mut i: usize = 0;
    while i < gs.len()
        invariant
            i <= gs@.len(),
            r@ == of_kind(gs@.take(i as int), t),
        decreases gs.len() - i,
    {
        assert(gs@.take(i as int + 1).drop_last() =~= gs@.take(i as int));
        assert(gs@.take(i as int + 1).last() == gs@[i as int]);
        if gs[i].grade_type == t {
            r.push(gs[i].duplicate());
        }
        i += 1;
    }
    assert(gs@.take(gs@.len() as int) =~= gs@);
    r
}

/// One kind's part in a weighted average.
#[derive(Debug, Clone, PartialEq, Eq)]
pub struct GradeTypeBreakdown {
    pub average: u64,
    pub weight: u32,
    pub count: usize,
    pub letter_grade: String,
}

/// A student's weighted average in a course, in basis points.
#[derive(Debug, Clone, PartialEq, Eq)]
pub struct WeightedGradeResult {
    pub student_id: String,
    pub course_id: String,
    pub final_average: u64,
    pub letter_grade: String,
    pub grade_breakdown: Vec<(GradeType, GradeTypeBreakdown)>,
    pub total_weight_used: u64,
}

/// The grades a course average is taken over: the student's grades in that
/// course, leaving out zero scores, which count as drafts.
pub open spec fn averaged_grades(state: TenantState, student_id: Seq<char>, course_id: Seq<char>) -> Seq<Grade> {
    selected_grades(state.grades(), student_id, Some(course_id), None, false)
}

proof fn lemma_selected_valid(gs: Seq<Grade>, s: Seq<char>, c: Option<Seq<char>>, t: Option<GradeType>, d: bool)
    requires
        valid_grades(gs),
    ensures
        valid_grades(selected_grades(gs, s, c, t, d)),
    decreases gs.len(),
{
    if gs.len() > 0 {
        assert(valid_grades(gs.drop_last())) by {
            assert forall|i: int| 0 <= i < gs.drop_last().len() implies (#[trigger] gs.drop_last()[i]).max_score > 0
                && 10 * gs.drop_last()[i].score <= 11 * gs.drop_last()[i].max_score by {
                assert(gs.drop_last()[i] == gs[i]);
            }
        }
        lemma_selected_valid(gs.drop_last(), s, c, t, d);
        let rest = selected_grades(gs.drop_last(), s, c, t, d);
        assert forall|i: int| 0 <= i < rest.push(gs.last()).len() implies (#[trigger] rest.push(gs.last())[i]).max_score > 0
            && 10 * rest.push(gs.last())[i].score <= 11 * rest.push(gs.last())[i].max_score by {
            if i < rest.len() {
                assert(rest.push(gs.last())[i] == rest[i]);
            }
        }
    }
}

/// The student's weighted average in the course: each kind's mean
/// percentage times its weight, summed over the kinds the student has
/// grades of, divided by the sum of those kinds' weights, so that a missing
/// kind does not pull the average down. Refused when the student has no
/// grades in the course.
pub fn calculate_weighted_course_average(
    state: &TenantState,
    student_id: &str,
    course_id: &str,
    weights: Option<GradeWeights>,
) -> (r: LMSResult<WeightedGradeResult>)
    requires
        state.wf(),
    ensures
        r is Ok == (averaged_grades(*state, student_id@, course_id@).len() > 0),
        r is Err ==> r->Err_0 is NotFound,
        r is Ok ==> {
            let gs = averaged_grades(*state, student_id@, course_id@);
            let w = match weights { Some(w) => w, None => default_weights() };
            &&& r->Ok_0.final_average == weighted_average(gs, w)
            &&& r->Ok_0.total_weight_used == weight_used(gs, w, 9)
            &&& lists_breakdown(r->Ok_0.grade_breakdown@, kind_breakdown(gs, w, 9))
            &&& r->Ok_0.letter_grade@ == letter_of(weighted_average(gs, w))
            &&& r->Ok_0.student_id@ == student_id@
            &&& r->Ok_0.course_id@ == course_id@
        },
{
    let w = match weights {
        Some(w) => w,
        None => GradeWeights::default(),
    };
    let cid = String::from_str(course_id);
    let grades = get_student_grades(state, student_id, Some(cid), None, false);
    proof {
        assert(opt_text(Some(cid)) == Some(course_id@));
        lemma_selected_valid(state.grades(), student_id@, Some(course_id@), None, false);
    }
    if grades.len() == 0 {
        return Err(LMSError::NotFound(text("No grades found for student in this course")));
    }
    let ghost gs = grades@;
    let mut weighted_total: u64 = 0;
    let mut total_weight: u64 = 0;
    let mut breakdown: Vec<(GradeType, GradeTypeBreakdown)> = Vec::new();
    let mut k: usize = 0;
    while k < 9
        invariant
            gs == grades@,
            valid_grades(gs),
            k <= 9,
            weighted_total == weighted_sum(gs, w, k as int),
            total_weight == weight_used(gs, w, k as int),
            weighted_total <= k * 11000 * 4294967295,
            lists_breakdown(breakdown@, kind_breakdown(gs, w, k as int)),
            total_weight <= k * 4294967295,
        decreases 9 - k,
    {
        let t = kind_at_exec(k);
        let group = grades_of_kind(&grades, t);
        proof {
            lemma_valid_sub(gs, t);
        }
        let weight = w.get_weight(&t);
        if group.len() > 0 && weight > 0 {
            let avg = calculate_type_average(&group);
            assert(avg as int * weight as int <= 11000 * 4294967295) by (nonlinear_arith)
                requires
                    avg <= 11000,
                    weight <= 4294967295,
            ;
            weighted_total = weighted_total + avg * (weight as u64);
            total_weight = total_weight + weight as u64;
            breakdown.push(
                (t, GradeTypeBreakdown { average: avg, weight, count: group.len(), letter_grade: calculate_letter_grade(avg) }),
            );
        }
        k += 1;
    }
    let final_average = if total_weight > 0 {
        weighted_total / total_weight
    } else {
        0
    };
    Ok(
        WeightedGradeResult {
            student_id: String::from_str(student_id),
            course_id: String::from_str(course_id),
            final_average,
            letter_grade: calculate_letter_grade(final_average),
            grade_breakdown: breakdown,
            total_weight_used: total_weight,
        },
    )
}

/// The student's plain mean percentage in the course, or nothing when the
/// student has no grades there.
pub fn calculate_course_average(state: &TenantState, student_id: &str, course_id: &str) -> (r: Option<u64>)
    requires
        state.wf(),
    ensures
        r is Some == (averaged_grades(*state, student_id@, course_id@).len() > 0),
        r is Some ==> r->Some_0 == average_percent(averaged_grades(*state, student_id@, course_id@)),
{
    let cid = String::from_str(course_id);
    let grades = get_student_grades(state, student_id, Some(cid), None, false);
    proof {
        assert(opt_text(Some(cid)) == Some(course_id@));
        lemma_selected_valid(state.grades(), student_id@, Some(course_id@), None, false);
    }
    if grades.len() == 0 {
        return None;
    }
    Some(calculate_type_average(&grades))
}


/// The percentages of `gs`, in order.
pub open spec fn percents(gs: Seq<Grade>) -> Seq<u64> {
    Seq::new(gs.len(), |i: int| percent(gs[i]) as u64)
}

/// Ascending order.
pub open spec fn ascending(s: Seq<u64>) -> bool {
    forall|i: int, j: int| 0 <= i < j < s.len() ==> s[i] <= s[j]
}

/// Sum of the squared distances of the percentages of `gs` from `m`.
pub open spec fn squared_deviation(gs: Seq<Grade>, m: int) -> nat
    decreases gs.len(),
{
    if gs.len() == 0 {
        0
    } else {
        squared_deviation(gs.drop_last(), m) + ((percent(gs.last()) - m) * (percent(gs.last()) - m)) as nat
    }
}

/// `r` is the integer square root of `v`.
pub open spec fn is_isqrt(r: nat, v: nat) -> bool {
    r * r <= v && v < (r + 1) * (r + 1)
}

/// The median of an ascending sequence: the middle element, or the mean
/// (rounded down) of the two middle ones.
pub open spec fn median_of(s: Seq<u64>) -> nat {
    if s.len() == 0 {
        0
    } else if s.len() % 2 == 0 {
        ((s[s.len() / 2 - 1] + s[(s.len() / 2) as int]) / 2) as nat
    } else {
        s[(s.len() / 2) as int] as nat
    }
}

/// Summary of a set of grades, as percentages in basis points.
#[derive(Debug, Clone, Copy, PartialEq, Eq, Structural)]
pub struct GradeStatistics {
    pub mean: u64,
    pub median: u64,
    pub std_deviation: u64,
    pub min: u64,
    pub max: u64,
    pub count: usize,
}

/// The statistics of no grades.
pub open spec fn zero_statistics() -> GradeStatistics {
    GradeStatistics { mean: 0, median: 0, std_deviation: 0, min: 0, max: 0, count: 0 }
}

impl Default for GradeStatistics {
    fn default() -> (r: Self)
        ensures
            r == zero_statistics(),
    {
        GradeStatistics { mean: 0, median: 0, std_deviation: 0, min: 0, max: 0, count: 0 }
    }
}

/// `st` summarises `gs`: count, mean, population standard deviation
/// (integer square root of the mean squared distance from the mean), and
/// median, least and greatest percentage read off the percentages sorted
/// ascending.
pub open spec fn summarises(st: GradeStatistics, gs: Seq<Grade>) -> bool {
    if gs.len() == 0 {
        st == zero_statistics()
    } else {
        let m = average_percent(gs);
        &&& st.count == gs.len()
        &&& st.mean == m
        &&& is_isqrt(st.std_deviation as nat, squared_deviation(gs, m as int) / gs.len())
        &&& exists|s: Seq<u64>|
            ascending(s) && #[trigger] s.to_multiset() == percents(gs).to_multiset() && st.median == median_of(s)
                && st.min == s[0] && st.max == s[s.len() - 1] && s.len() == gs.len()
    }
}

/// Sorts a list of numbers ascending.
pub fn sort_ascending(v: &Vec<u64>) -> (r: Vec<u64>)
    ensures
        ascending(r@),
        r@.to_multiset() == v@.to_multiset(),
        r@.len() == v@.len(),
{
    let mut r: Vec<u64> = Vec::new();
    let mut k: usize = 0;
    assert(r@ =~= v@.take(0));
    while k < v.len()
        invariant
            k <= v@.len(),
            ascending(r@),
            r@.to_multiset() == v@.take(k as int).to_multiset(),
            r@.len() == k,
        decreases v.len() - k,
    {
        let x = v[k];
        let mut p: usize = 0;
        while p < r.len() && r[p] <= x
            invariant
                p <= r@.len(),
                forall|m: int| 0 <= m < p ==> r@[m] <= x,
            decreases r.len() - p,
        {
            p += 1;
        }
        let ghost before = r@;
        r.insert(p, x);
        assert(r@ == before.insert(p as int, x));
        proof {
            vstd::seq_lib::to_multiset_insert(before, p as int, x);
        }
        assert(ascending(r@)) by {
            assert forall|i: int, j: int| 0 <= i < j < r@.len() implies r@[i] <= r@[j] by {
                if j < p {
                    assert(r@[i] == before[i] && r@[j] == before[j]);
                } else if j == p {
                    assert(r@[i] == before[i]);
                } else if i == p {
                    assert(r@[j] == before[j - 1]);
                    if p < before.len() {
                        assert(before[p as int] > x);
                        assert(before[p as int] <= before[j - 1]);
                    }
                } else if i < p {
                    assert(r@[i] == before[i] && r@[j] == before[j - 1]);
                } else {
                    assert(r@[i] == before[i - 1] && r@[j] == before[j - 1]);
                }
            }
        }
        assert(v@.take(k as int + 1) =~= v@.take(k as int).push(x));
        proof {
            vstd::seq_lib::to_multiset_build(v@.take(k as int), x);
        }
        k += 1;
    }
    assert(v@.take(v@.len() as int) =~= v@);
    r
}

/// Integer square root, for values up to 11000 squared.
fn isqrt(v: u64) -> (r: u64)
    requires
        v <= 121_000_000,
    ensures
        is_isqrt(r as nat, v as nat),
{
    let mut r: u64 = 0;
    loop
        invariant
            r * r <= v,
            r <= 11000,
            v <= 121_000_000,
        ensures
            r * r <= v < (r + 1) * (r + 1),
        decreases 11000 - r,
    {
        let n1 = r + 1;
        assert(n1 * n1 <= 11001 * 11001) by (nonlinear_arith)
            requires
                n1 <= 11001,
        ;
        if n1 * n1 > v {
            break;
        }
        assert(n1 <= 11000) by (nonlinear_arith)
            requires
                n1 * n1 <= v,
                v <= 121_000_000,
        ;
        r = n1;
    }
    r
}

proof fn lemma_square_bound(p: int, m: int)
    requires
        0 <= p <= 11000,
        0 <= m <= 11000,
    ensures
        (p - m) * (p - m) <= 121_000_000,
{
    assert((p - m) * (p - m) <= 11000 * 11000) by (nonlinear_arith)
        requires
            -11000 <= p - m <= 11000,
    ;
}

/// Mean, median, population standard deviation, least and greatest of the
/// percentages of `grades`; all zero when there are none.
pub fn calculate_grade_statistics(grades: &Vec<Grade>) -> (r: GradeStatistics)
    requires
        valid_grades(grades@),
    ensures
        summarises(r, grades@),
{
    let n = grades.len();
    if n == 0 {
        return GradeStatistics::default();
    }
    let mean = calculate_type_average(grades);
    let mut ps: Vec<u64> = Vec::new();
    let mut dev: u128 = 0;
    let mut i: usize = 0;
    while i < n
        invariant
            n == grades@.len(),
            i <= n,
            valid_grades(grades@),
            mean <= 11000,
            ps@ == percents(grades@).take(i as int),
            dev == squared_deviation(grades@.take(i as int), mean as int),
            dev <= i * 121_000_000,
        decreases n - i,
    {
        assert(grades@.take(i as int + 1).drop_last() =~= grades@.take(i as int));
        let p = grade_percent(&grades[i]);
        proof {
            lemma_square_bound(p as int, mean as int);
        }
        let d: u128 = if p >= mean { (p - mean) as u128 } else { (mean - p) as u128 };
        assert(d * d == (p - mean) * (p - mean)) by (nonlinear_arith)
            requires
                d == (if p >= mean { p - mean } else { mean - p }),
        ;
        dev = dev + d * d;
        ps.push(p);
        assert(ps@ =~= percents(grades@).take(i as int + 1));
        i += 1;
    }
    assert(grades@.take(n as int) =~= grades@);
    assert(ps@ =~= percents(grades@));
    let nn = n as u128;
    let var128 = dev / nn;
    assert(var128 <= 121_000_000) by (nonlinear_arith)
        requires
            dev <= nn * 121_000_000,
            nn > 0,
            var128 == dev / nn,
    ;
    let sd = isqrt(var128 as u64);
    let sorted = sort_ascending(&ps);
    let median = if n % 2 == 0 {
        ((sorted[n / 2 - 1] as u128 + sorted[n / 2] as u128) / 2) as u64
    } else {
        sorted[n / 2]
    };
    let r = GradeStatistics { mean, median, std_deviation: sd, min: sorted[0], max: sorted[n - 1], count: n };
    assert(ascending(sorted@) && sorted@.to_multiset() == percents(grades@).to_multiset() && r.median == median_of(sorted@)
        && r.min == sorted@[0] && r.max == sorted@[sorted@.len() - 1] && sorted@.len() == grades@.len());
    r
}

/// The letters, from best to worst.
pub open spec fn letter_at(k: int) -> Seq<char> {
    letter_of(band_floor(k))
}

/// A percentage inside the `k`-th letter band.
pub open spec fn band_floor(k: int) -> nat {
    if k == 0 { 9700 }
    else if k == 1 { 9300 }
    else if k == 2 { 9000 }
    else if k == 3 { 8700 }
    else if k == 4 { 8300 }
    else if k == 5 { 8000 }
    else if k == 6 { 7700 }
    else if k == 7 { 7300 }
    else if k == 8 { 7000 }
    else if k == 9 { 6700 }
    else if k == 10 { 6300 }
    else if k == 11 { 6000 }
    else { 0 }
}

fn band_floor_exec(k: usize) -> (r: u64)
    requires
        k < 13,
    ensures
        r == band_floor(k as int),
{
    if k == 0 { 9700 }
    else if k == 1 { 9300 }
    else if k == 2 { 9000 }
    else if k == 3 { 8700 }
    else if k == 4 { 8300 }
    else if k == 5 { 8000 }
    else if k == 6 { 7700 }
    else if k == 7 { 7300 }
    else if k == 8 { 7000 }
    else if k == 9 { 6700 }
    else if k == 10 { 6300 }
    else if k == 11 { 6000 }
    else { 0 }
}

/// How many grades of `gs` get letter `l`.
pub open spec fn letter_count(gs: Seq<Grade>, l: Seq<char>) -> nat
    decreases gs.len(),
{
    if gs.len() == 0 {
        0
    } else {
        letter_count(gs.drop_last(), l) + if letter_of(percent(gs.last())) == l { 1nat } else { 0nat }
    }
}

/// The letters among the first `k` that some grade gets, with their counts.
pub open spec fn distribution(gs: Seq<Grade>, k: int) -> Seq<(Seq<char>, nat)>
    decreases k,
{
    if k <= 0 {
        seq![]
    } else {
        let rest = distribution(gs, k - 1);
        if letter_count(gs, letter_at(k - 1)) > 0 {
            rest.push((letter_at(k - 1), letter_count(gs, letter_at(k - 1))))
        } else {
            rest
        }
    }
}

/// How many grades get each letter, best letter first; letters nobody got
/// are left out.
pub fn calculate_letter_grade_distribution(grades: &Vec<Grade>) -> (r: Vec<(String, usize)>)
    requires
        valid_grades(grades@),
    ensures
        r@.len() == distribution(grades@, 13).len(),
        forall|k: int| 0 <= k < r@.len() ==> (#[trigger] r@[k]).0@ == distribution(grades@, 13)[k].0
            && r@[k].1 == distribution(grades@, 13)[k].1,
{
    let mut r: Vec<(String, usize)> = Vec::new();
    let mut k: usize = 0;
    while k < 13
        invariant
            k <= 13,
            valid_grades(grades@),
            r@.len() == distribution(grades@, k as int).len(),
            forall|m: int| 0 <= m < r@.len() ==> (#[trigger] r@[m]).0@ == distribution(grades@, k as int)[m].0
                && r@[m].1 == distribution(grades@, k as int)[m].1,
        decreases 13 - k,
    {
        let letter = calculate_letter_grade(band_floor_exec(k));
        let mut count: usize = 0;
        let mut i: usize = 0;
        while i < grades.len()
            invariant
                i <= grades@.len(),
                valid_grades(grades@),
                letter@ == letter_at(k as int),
                count == letter_count(grades@.take(i as int), letter_at(k as int)),
                count <= i,
            decreases grades.len() - i,
        {
            assert(grades@.take(i as int + 1).drop_last() =~= grades@.take(i as int));
            let l = calculate_letter_grade(grade_percent(&grades[i]));
            if l == letter {
                count += 1;
            }
            i += 1;
        }
        assert(grades@.take(grades@.len() as int) =~= grades@);
        if count > 0 {
            r.push((letter, count));
        }
        k += 1;
    }
    r
}

/// A course's grades with their statistics.
#[derive(Debug, Clone, PartialEq, Eq)]
pub struct CourseGradeReport {
    pub course_id: String,
    pub total_grades: usize,
    pub grades: Vec<Grade>,
    pub statistics: GradeStatistics,
    pub letter_grade_distribution: Vec<(String, usize)>,
}

proof fn lemma_course_grades_valid(gs: Seq<Grade>, c: Seq<char>)
    requires
        valid_grades(gs),
    ensures
        valid_grades(course_grades(gs, c)),
    decreases gs.len(),
{
    if gs.len() > 0 {
        assert(valid_grades(gs.drop_last())) by {
            assert forall|i: int| 0 <= i < gs.drop_last().len() implies (#[trigger] gs.drop_last()[i]).max_score > 0
                && 10 * gs.drop_last()[i].score <= 11 * gs.drop_last()[i].max_score by {
                assert(gs.drop_last()[i] == gs[i]);
            }
        }
        lemma_course_grades_valid(gs.drop_last(), c);
        let rest = course_grades(gs.drop_last(), c);
        assert forall|i: int| 0 <= i < rest.push(gs.last()).len() implies (#[trigger] rest.push(gs.last())[i]).max_score > 0
            && 10 * rest.push(gs.last())[i].score <= 11 * rest.push(gs.last())[i].max_score by {
            if i < rest.len() {
                assert(rest.push(gs.last())[i] == rest[i]);
            }
        }
    }
}

/// Every grade of course `course_id` with its statistics and letter
/// distribution, for the course's instructors and administrators.
pub fn get_course_grades_with_stats(state: &TenantState, caller: &Option<String>, course_id: &str) -> (r: LMSResult<CourseGradeReport>)
    requires
        state.wf(),
    ensures
        r is Ok == may_grade(*state, *caller, course_id@),
        r is Ok ==> r->Ok_0.course_id@ == course_id@,
        r is Ok ==> r->Ok_0.grades@ == course_grades(state.grades(), course_id@),
        r is Ok ==> r->Ok_0.total_grades == r->Ok_0.grades@.len(),
        r is Ok ==> summarises(r->Ok_0.statistics, course_grades(state.grades(), course_id@)),
        r is Ok ==> r->Ok_0.letter_grade_distribution@.len() == distribution(course_grades(state.grades(), course_id@), 13).len(),
        r is Ok ==> forall|k: int| 0 <= k < r->Ok_0.letter_grade_distribution@.len() ==> (#[trigger] r->Ok_0.letter_grade_distribution@[k]).0@
            == distribution(course_grades(state.grades(), course_id@), 13)[k].0
            && r->Ok_0.letter_grade_distribution@[k].1 == distribution(course_grades(state.grades(), course_id@), 13)[k].1,
{
    validate_grading_permissions(state, caller, course_id)?;
    let grades = get_course_grades(state, course_id);
    proof {
        lemma_course_grades_valid(state.grades(), course_id@);
    }
    let statistics = calculate_grade_statistics(&grades);
    let letter_grade_distribution = calculate_letter_grade_distribution(&grades);
    let total = grades.len();
    Ok(
        CourseGradeReport {
            course_id: String::from_str(course_id),
            total_grades: total,
            grades,
            statistics,
            letter_grade_distribution,
        },
    )
}
} // verus!
