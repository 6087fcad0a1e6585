use crypsinous::field::Base;
use crypsinous::merkle::{
    accept_path, empty_root_of, join, root_from_path, MerkleAccumulator, MerkleNode, EMPTY_ROOTS,
    MERKLE_DEPTH,
};

fn node(v: u64) -> MerkleNode {
    MerkleNode::new(Base::from_u64(v))
}

fn climb(leaf: &MerkleNode, position: usize, path: &[MerkleNode]) -> MerkleNode {
    let mut current = *leaf;
    for (level, sibling) in path.iter().enumerate() {
        current = if (position >> level) & 1 == 0 {
            join(level as u8, &current, sibling)
        } else {
            join(level as u8, sibling, &current)
        };
    }
    current
}

#[test]
fn empty_roots_follow_from_the_empty_leaf() {
    assert_eq!(Base::from_repr(EMPTY_ROOTS[0]).unwrap(), Base::from_u64(2));
    for level in 0..MERKLE_DEPTH {
        let below = MerkleNode::new(Base::from_repr(EMPTY_ROOTS[level as usize]).unwrap());
        let above = join(level, &below, &below);
        assert_eq!(above.inner().to_repr(), EMPTY_ROOTS[level as usize + 1]);
    }
}

#[test]
fn join_depends_on_level_and_order() {
    let a = node(1);
    let b = node(2);
    assert_eq!(join(0, &a, &b), join(0, &a, &b));
    assert_ne!(join(0, &a, &b), join(0, &b, &a));
    assert_ne!(join(0, &a, &b), join(1, &a, &b));
    assert_ne!(join(0, &a, &b), a);
}

#[test]
fn empty_accumulator_has_the_empty_root() {
    let acc = MerkleAccumulator::new(10);
    assert_eq!(acc.root().inner().to_repr(), EMPTY_ROOTS[32]);
}

#[test]
fn insertion_gives_root_and_path_of_that_moment() {
    let mut acc = MerkleAccumulator::new(10);
    let first = node(11);
    let second = node(12);
    let third = node(13);

    let (root1, path1) = acc.insert(&first).unwrap();
    assert_eq!(path1.len(), 32);
    assert_eq!(root_from_path(&first, 0, &path1), root1);
    assert_eq!(acc.root(), root1);
    assert_eq!(path1[0].inner().to_repr(), EMPTY_ROOTS[0]);

    let (root2, path2) = acc.insert(&second).unwrap();
    assert_eq!(path2.len(), 32);
    assert_ne!(root2, root1);
    assert_eq!(path2[0], first);
    assert_eq!(root_from_path(&second, 1, &path2), root2);
    // the first leaf's path of before does not lead to the later root
    assert_ne!(root_from_path(&first, 0, &path1), root2);

    let (root3, path3) = acc.insert(&third).unwrap();
    assert_eq!(root_from_path(&third, 2, &path3), root3);
    assert_eq!(climb(&third, 2, &path3), root3);
    assert_eq!(climb(&second, 1, &path2), root2);
    assert_eq!(climb(&first, 0, &path1), root1);
    assert_eq!(path3[1], join(0, &first, &second));
    assert_eq!(acc.root(), root3);
}

#[test]
fn path_leads_to_the_root_by_the_side_at_each_level() {
    let leaf = node(1);
    let path = vec![node(2), node(3), node(4)];
    // position 5 is 101 in binary: right, left, right
    let expected = join(2, &node(4), &join(1, &join(0, &node(2), &leaf), &node(3)));
    assert_eq!(root_from_path(&leaf, 5, &path), expected);
    assert_eq!(climb(&leaf, 5, &path), expected);
    let left = join(2, &join(1, &join(0, &leaf, &node(2)), &node(3)), &node(4));
    assert_eq!(root_from_path(&leaf, 0, &path), left);
    assert_eq!(root_from_path(&leaf, 8, &path), left);
    assert_eq!(root_from_path(&leaf, 3, &[]), leaf);
    assert!(leaf.same(&node(1)));
    assert!(!leaf.same(&node(2)));
}

#[test]
fn empty_roots_are_read_from_the_table_and_computed_beyond_it() {
    for height in 0..=MERKLE_DEPTH {
        assert_eq!(empty_root_of(height).inner().to_repr(), EMPTY_ROOTS[height as usize]);
    }
    let top = empty_root_of(32);
    assert_eq!(empty_root_of(33), join(32, &top, &top));
    assert_eq!(empty_root_of(0), node(2));
    assert_eq!(empty_root_of(1), join(0, &node(2), &node(2)));
}

#[test]
fn a_path_is_handed_out_where_it_leads_to_the_root() {
    let mut acc = MerkleAccumulator::new(10);
    let first = node(11);
    let second = node(12);
    acc.insert(&first).unwrap();
    let (root, path) = acc.insert(&second).unwrap();
    let given = path.to_vec();

    assert_eq!(accept_path(&second, 1, root, Some(given.clone())), Some((root, path)));
    assert_eq!(accept_path(&second, 1, root, None), None);
    // another leaf, another side, another root
    assert_eq!(accept_path(&first, 1, root, Some(given.clone())), None);
    assert_eq!(accept_path(&second, 0, root, Some(given.clone())), None);
    assert_eq!(accept_path(&second, 1, node(5), Some(given.clone())), None);
    // a path that is too short or too long
    let mut short = given.clone();
    short.pop();
    assert_eq!(accept_path(&second, 1, root, Some(short.clone())), None);
    let partial = root_from_path(&second, 1, &short);
    assert_eq!(accept_path(&second, 1, partial, Some(short)), None);
    let mut long = given.clone();
    long.push(node(1));
    assert_eq!(accept_path(&second, 1, root, Some(long)), None);
    // a path with a node changed
    let mut changed = given;
    changed[7] = node(1);
    assert_eq!(accept_path(&second, 1, root, Some(changed)), None);
}

#[test]
fn leaves_are_added_without_asking_for_a_path() {
    let mut plain = MerkleAccumulator::new(10);
    let mut marked = MerkleAccumulator::new(10);
    for v in [11u64, 12, 13] {
        assert!(plain.append(&node(v)));
        let (root, _) = marked.insert(&node(v)).unwrap();
        assert_eq!(plain.root(), root);
    }
}
