use d3st_wasm::{pack_clusters, pack_index_word, unpack_index_word, Assignment, Category};

fn a(index: usize, category: Category, label: u16) -> Assignment {
    Assignment { index, category, label }
}

#[test]
fn packs_one_cluster_into_words() {
    let clusters = vec![vec![a(5, Category::Core, 0xFFFF), a(3, Category::Noise, 0)]];
    assert_eq!(pack_clusters(&clusters), vec![0x0002, 0x0005, 0xFFFF, 0x8003, 0x0000]);
}

#[test]
fn empty_cluster_is_one_zero_word() {
    let clusters = vec![
        vec![a(1, Category::Border, 7)],
        vec![],
        vec![a(2, Category::Core, 9)],
    ];
    assert_eq!(pack_clusters(&clusters), vec![1, 0x4001, 7, 0, 1, 2, 9]);
    assert_eq!(pack_clusters(&[vec![]]), vec![0]);
    assert_eq!(pack_clusters(&[]), Vec::<u16>::new());
}

#[test]
fn encoding_twice_gives_the_same_words() {
    let clusters = vec![
        vec![a(10, Category::Core, 100), a(11, Category::Border, 200)],
        vec![a(12, Category::Noise, 300)],
    ];
    assert_eq!(pack_clusters(&clusters), pack_clusters(&clusters));
}

#[test]
fn words_read_back_to_the_clusters() {
    let clusters = vec![
        vec![a(0, Category::Core, 65535), a(16383, Category::Border, 1), a(42, Category::Noise, 32768)],
        vec![],
        vec![a(7, Category::Border, 0)],
    ];
    let words = pack_clusters(&clusters);
    let mut read: Vec<Vec<Assignment>> = Vec::new();
    let mut at = 0;
    while at < words.len() {
        let count = words[at] as usize;
        at += 1;
        let mut cluster = Vec::new();
        for _ in 0..count {
            let (index, category) = unpack_index_word(words[at]).unwrap();
            cluster.push(a(index, category, words[at + 1]));
            at += 2;
        }
        read.push(cluster);
    }
    assert_eq!(read, clusters);
}

#[test]
fn index_word_layout() {
    assert_eq!(pack_index_word(5, Category::Core), 0x0005);
    assert_eq!(pack_index_word(5, Category::Border), 0x4005);
    assert_eq!(pack_index_word(3, Category::Noise), 0x8003);
    assert_eq!(pack_index_word(16383, Category::Noise), 0xBFFF);
    // An index past the 14-bit field keeps only its low 16 bits.
    assert_eq!(pack_index_word(0x1_4005, Category::Border), 0x4005);
    assert_eq!(pack_index_word(0x4000, Category::Core), 0x4000);
}

#[test]
fn index_word_unpacks() {
    assert_eq!(unpack_index_word(0x8003), Some((3, Category::Noise)));
    assert_eq!(unpack_index_word(0x4005), Some((5, Category::Border)));
    assert_eq!(unpack_index_word(0x3FFF), Some((16383, Category::Core)));
    assert_eq!(unpack_index_word(0xC001), None);
}
