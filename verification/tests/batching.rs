use duui_ner::batch::batches;

fn sizes(len: usize, batch_size: usize) -> Vec<usize> {
    let items: Vec<usize> = (0..len).collect();
    batches(&items, batch_size).iter().map(|batch| batch.len()).collect()
}

#[test]
fn batches_are_full_but_the_last() {
    assert_eq!(vec![2, 2, 1], sizes(5, 2));
    assert_eq!(vec![2, 2], sizes(4, 2));
    assert_eq!(vec![1, 1, 1], sizes(3, 1));
    assert_eq!(vec![3], sizes(3, 128));
    assert_eq!(vec![3], sizes(3, 3));
    assert_eq!(vec![3], sizes(3, usize::MAX));
    assert_eq!(Vec::<usize>::new(), sizes(0, 4));
}

#[test]
fn batches_keep_every_item_in_order() {
    let items = ["a", "b", "c", "d", "e", "f", "g"];
    let cut = batches(&items, 3);
    assert_eq!(vec![&items[0..3], &items[3..6], &items[6..7]], cut);
    for batch_size in 1..10 {
        let cut = batches(&items, batch_size);
        let expected: Vec<&[&str]> = items.chunks(batch_size).collect();
        assert_eq!(expected, cut);
        assert_eq!(items.to_vec(), cut.concat());
    }
}
