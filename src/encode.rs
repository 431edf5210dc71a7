use vstd::prelude::*;

verus! {

broadcast use Seq::lemma_flatten_push;

/// A point's role in the cluster it is assigned to.
#[derive(Debug, Clone, Copy, PartialEq, Eq, Structural)]
pub enum Category {
    Core,
    Border,
    Noise,
}

/// One point's membership in a cluster, as the encoder takes it.
#[derive(Debug, Clone, Copy, PartialEq, Eq, Structural)]
pub struct Assignment {
    /// Position of the point in the decoded input.
    pub index: usize,
    /// Role of the point in the cluster.
    pub category: Category,
    /// The soft label (a membership strength in `[0, 1]`) scaled to
    /// `0..=65535`.
    pub label: u16,
}

/// The two-bit code of a category; code 3 is reserved.
pub open spec fn category_code(c: Category) -> u16 {
    match c {
        Category::Core => 0,
        Category::Border => 1,
        Category::Noise => 2,
    }
}

/// The category with two-bit code `code`, if any.
pub open spec fn category_of_code(code: u16) -> Option<Category> {
    if code == 0 {
        Some(Category::Core)
    } else if code == 1 {
        Some(Category::Border)
    } else if code == 2 {
        Some(Category::Noise)
    } else {
        None
    }
}

/// The word that carries a point index in its low 14 bits and a category
/// code in its high 2 bits. An index is first cut to its low 16 bits, so an
/// index of 16384 or more spills into the category bits.
pub open spec fn index_word(index: nat, c: Category) -> u16 {
    ((index % 0x10000) as u16) | (category_code(c) << 14u16)
}

/// Largest point index that the index word carries intact.
pub const MAX_POINT_INDEX: usize = 0x3fff;

/// The two words of one assignment: index word, then scaled label.
pub open spec fn assignment_words(a: Assignment) -> Seq<u16> {
    seq![index_word(a.index as nat, a.category), a.label]
}

/// The words of a run of assignments, in order.
pub open spec fn assignments_words(c: Seq<Assignment>) -> Seq<u16> {
    c.map_values(|a: Assignment| assignment_words(a)).flatten()
}

/// The words of one cluster: its assignment count (cut to 16 bits), then
/// two words per assignment.
pub open spec fn cluster_words(c: Seq<Assignment>) -> Seq<u16> {
    seq![(c.len() % 0x10000) as u16] + assignments_words(c)
}

/// The words of a clustering result: the clusters' words, concatenated in
/// order, with nothing before, between or after them.
pub open spec fn clusters_words(cs: Seq<Seq<Assignment>>) -> Seq<u16> {
    cs.map_values(|c: Seq<Assignment>| cluster_words(c)).flatten()
}

/// Packs a point index and a category into one word.
pub fn pack_index_word(index: usize, category: Category) -> (r: u16)
    ensures
        r == index_word(index as nat, category),
        index <= MAX_POINT_INDEX ==> r == index + 0x4000 * category_code(category),
{
    let code: u16 = match category {
        Category::Core => 0,
        Category::Border => 1,
        Category::Noise => 2,
    };
    let low = (index % 0x10000) as u16;
    let r = low | (code << 14u16);
    assert(low < 0x4000 && code <= 2 ==> low | (code << 14u16) == low + 0x4000 * code)
        by (bit_vector);
    r
}

/// Splits a word into its point index and category; `None` where it holds
/// the reserved category code.
pub fn unpack_index_word(word: u16) -> (r: Option<(usize, Category)>)
    ensures
        category_of_code(word / 0x4000) matches Some(c) ==> r == Some(
            ((word % 0x4000) as usize, c),
        ),
        category_of_code(word / 0x4000) is None ==> r is None,
{
    let index = word & 0x3fff;
    let code = word >> 14u16;
    assert(word & 0x3fff == word % 0x4000) by (bit_vector);
    assert(word >> 14u16 == word / 0x4000) by (bit_vector);
    let category = match code {
        0 => Category::Core,
        1 => Category::Border,
        2 => Category::Noise,
        _ => return None,
    };
    Some((index as usize, category))
}

/// Encodes a clustering result as words: for each cluster its assignment
/// count, then the index word and the scaled label of each assignment.
pub fn pack_clusters(clusters: &[Vec<Assignment>]) -> (r: Vec<u16>)
    ensures
        r@ == clusters_words(clusters@.map_values(|c: Vec<Assignment>| c@)),
{
    let mut out: Vec<u16> = Vec::new();
    let mut i: usize = 0;
    while i < clusters.len()
        invariant
            i <= clusters@.len(),
            out@ == clusters_words(clusters@.subrange(0, i as int).map_values(|c: Vec<Assignment>| c@)),
        decreases clusters@.len() - i,
    {
        let cluster = &clusters[i];
        let ghost before = out@;
        out.push((cluster.len() % 0x10000) as u16);
        let mut j: usize = 0;
        while j < cluster.len()
            invariant
                j <= cluster@.len(),
                out@ == before + seq![(cluster@.len() % 0x10000) as u16] + assignments_words(
                    cluster@.subrange(0, j as int),
                ),
            decreases cluster@.len() - j,
        {
            let a = cluster[j];
            out.push(pack_index_word(a.index, a.category));
            out.push(a.label);
            proof {
                let done = cluster@.subrange(0, j as int);
                assert(cluster@.subrange(0, j + 1) == done.push(a));
                assert(done.push(a).map_values(|a: Assignment| assignment_words(a)) == done.map_values(
                    |a: Assignment| assignment_words(a),
                ).push(assignment_words(a)));
            }
            j += 1;
        }
        proof {
            let views = clusters@.map_values(|c: Vec<Assignment>| c@);
            let done = clusters@.subrange(0, i as int).map_values(|c: Vec<Assignment>| c@);
            assert(cluster@.subrange(0, cluster@.len() as int) == cluster@);
            assert(clusters@.subrange(0, i + 1).map_values(|c: Vec<Assignment>| c@) == done.push(
                cluster@,
            ));
            assert(done.push(cluster@).map_values(|c: Seq<Assignment>| cluster_words(c)) == done.map_values(
                |c: Seq<Assignment>| cluster_words(c),
            ).push(cluster_words(cluster@)));
        }
        i += 1;
    }
    assert(clusters@.subrange(0, clusters@.len() as int) == clusters@);
    out
}

/// The assignment that an index word and a label word carry; `None` where
/// the index word holds the reserved category code.
pub open spec fn assignment_of_words(word: u16, label: u16) -> Option<Assignment> {
    match category_of_code(word / 0x4000) {
        Some(c) => Some(Assignment { index: (word % 0x4000) as usize, category: c, label }),
        None => None,
    }
}

/// Reads word pairs back as assignments; `None` where a pair is cut short or
/// holds the reserved category code.
pub open spec fn parsed_assignments(ws: Seq<u16>) -> Option<Seq<Assignment>>
    decreases ws.len(),
{
    if ws.len() == 0 {
        Some(Seq::empty())
    } else if ws.len() < 2 {
        None
    } else {
        match (assignment_of_words(ws[0], ws[1]), parsed_assignments(ws.subrange(2, ws.len() as int))) {
            (Some(a), Some(rest)) => Some(seq![a] + rest),
            _ => None,
        }
    }
}

/// Reads a word stream back as a clustering result: a count word, that many
/// word pairs, and so on to the end; `None` where a cluster is cut short or
/// an assignment cannot be read.
pub open spec fn parsed_clusters(ws: Seq<u16>) -> Option<Seq<Seq<Assignment>>>
    decreases ws.len(),
{
    if ws.len() == 0 {
        Some(Seq::empty())
    } else {
        let end = 1 + 2 * ws[0];
        if ws.len() < end {
            None
        } else {
            match (
                parsed_assignments(ws.subrange(1, end)),
                parsed_clusters(ws.subrange(end, ws.len() as int)),
            ) {
                (Some(c), Some(rest)) => Some(seq![c] + rest),
                _ => None,
            }
        }
    }
}

proof fn lemma_assignment_words_read_back(a: Assignment)
    requires
        a.index <= MAX_POINT_INDEX,
    ensures
        assignment_of_words(index_word(a.index as nat, a.category), a.label) == Some(a),
{
    let i = a.index as u16;
    let code = category_code(a.category);
    assert(i < 0x4000 && code <= 2 ==> i | (code << 14u16) == i + 0x4000 * code) by (bit_vector);
    assert((a.index as nat % 0x10000) as u16 == i);
}

proof fn lemma_assignments_words_read_back(c: Seq<Assignment>)
    requires
        forall|j: int| 0 <= j < c.len() ==> (#[trigger] c[j]).index <= MAX_POINT_INDEX,
    ensures
        assignments_words(c).len() == 2 * c.len(),
        parsed_assignments(assignments_words(c)) == Some(c),
    decreases c.len(),
{
    if c.len() > 0 {
        let words = c.map_values(|a: Assignment| assignment_words(a));
        assert(words.drop_first() == c.drop_first().map_values(|a: Assignment| assignment_words(a)));
        lemma_assignments_words_read_back(c.drop_first());
        lemma_assignment_words_read_back(c[0]);
        let ws = assignments_words(c);
        assert(ws == assignment_words(c[0]) + assignments_words(c.drop_first()));
        assert(ws.subrange(2, ws.len() as int) == assignments_words(c.drop_first()));
        assert(seq![c[0]] + c.drop_first() == c);
    } else {
        assert(assignments_words(c) == Seq::<u16>::empty());
    }
}

/// Reading back what `clusters_words` writes gives the clusters again, with
/// every index, category and scaled label, provided each index fits the
/// 14-bit index field and each cluster's count fits its 16-bit word.
pub proof fn lemma_round_trip(cs: Seq<Seq<Assignment>>)
    requires
        forall|i: int, j: int|
            0 <= i < cs.len() && 0 <= j < cs[i].len() ==> (#[trigger] cs[i][j]).index
                <= MAX_POINT_INDEX,
        forall|i: int| 0 <= i < cs.len() ==> (#[trigger] cs[i]).len() <= 0xffff,
    ensures
        parsed_clusters(clusters_words(cs)) == Some(cs),
    decreases cs.len(),
{
    if cs.len() > 0 {
        let c = cs[0];
        let words = cs.map_values(|c: Seq<Assignment>| cluster_words(c));
        assert(words.drop_first() == cs.drop_first().map_values(
            |c: Seq<Assignment>| cluster_words(c),
        ));
        assert forall|i: int, j: int|
            0 <= i < cs.drop_first().len() && 0 <= j < cs.drop_first()[i].len()
                implies (#[trigger] cs.drop_first()[i][j]).index <= MAX_POINT_INDEX by {
            assert(cs.drop_first()[i] == cs[i + 1]);
        }
        assert forall|i: int| 0 <= i < cs.drop_first().len() implies (
        #[trigger] cs.drop_first()[i]).len() <= 0xffff by {
            assert(cs.drop_first()[i] == cs[i + 1]);
        }
        lemma_round_trip(cs.drop_first());
        assert forall|j: int| 0 <= j < c.len() implies (#[trigger] c[j]).index
            <= MAX_POINT_INDEX by {
            assert(cs[0][j] == c[j]);
        }
        lemma_assignments_words_read_back(c);
        let ws = clusters_words(cs);
        let rest = clusters_words(cs.drop_first());
        assert(ws == cluster_words(c) + rest);
        let end: int = 1 + 2 * c.len() as int;
        assert(ws[0] == c.len());
        assert(ws.subrange(1, end) == assignments_words(c));
        assert(ws.subrange(end, ws.len() as int) == rest);
        assert(seq![c] + cs.drop_first() == cs);
    } else {
        assert(clusters_words(cs) == Seq::<u16>::empty());
    }
}

/// Encoding is a function of the clustering result alone: equal results give
/// equal words, so encoding one result twice gives the same output.
pub proof fn lemma_encoding_repeatable(a: Seq<Seq<Assignment>>, b: Seq<Seq<Assignment>>)
    requires
        a == b,
    ensures
        clusters_words(a) == clusters_words(b),
{
}

/// A cluster with no assignments is written as the one word zero, and the
/// result's words are those of the clusters before it, that zero word, and
/// those of the clusters after it.
pub proof fn lemma_empty_cluster(cs: Seq<Seq<Assignment>>, i: int)
    requires
        0 <= i < cs.len(),
        cs[i].len() == 0,
    ensures
        cluster_words(cs[i]) == seq![0u16],
        clusters_words(cs) == clusters_words(cs.take(i)) + seq![0u16] + clusters_words(
            cs.skip(i + 1),
        ),
{
    let f = |c: Seq<Assignment>| cluster_words(c);
    assert(assignments_words(cs[i]) == Seq::<u16>::empty()) by {
        assert(cs[i].map_values(|a: Assignment| assignment_words(a)) == Seq::<Seq<u16>>::empty());
    }
    assert(cluster_words(cs[i]) == seq![0u16]);
    let before = cs.take(i);
    let after = cs.skip(i + 1);
    assert(cs == before + seq![cs[i]] + after);
    assert(cs.map_values(f) == before.map_values(f) + seq![seq![0u16]] + after.map_values(f));
    vstd::seq_lib::lemma_flatten_concat(before.map_values(f) + seq![seq![0u16]], after.map_values(f));
    vstd::seq_lib::lemma_flatten_concat(before.map_values(f), seq![seq![0u16]]);
    Seq::lemma_flatten_singleton(seq![seq![0u16]]);
}

} // verus!
