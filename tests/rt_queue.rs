use rand::prelude::random;
use rt_queue::RTQ;

fn drain<T: Copy>(q: &RTQ<T>) -> Vec<T> {
    let mut out = Vec::new();
    let mut q = q.clone();
    while !q.is_empty() {
        out.push(*q.front());
        q = q.pop();
    }
    out
}

#[test]
fn small_case() {
    let v = vec![1, 2, 3, 4, 5, 6, 7, 8, 9, 196883];
    let mut vp = Vec::new();
    let mut q = RTQ::new();
    for i in &v {
        q = q.push(*i);
    }
    while !q.is_empty() {
        vp.push(*q.front());
        q = q.pop();
    }
    assert_eq!(v, vp);
}

#[test]
fn random_case() {
    for _ in 0..20 {
        let mut v: Vec<u128> = Vec::new();
        for _ in 0..random::<u128>() % 10001 {
            v.push(random());
        }
        let mut vp: Vec<u128> = Vec::new();
        let mut q: RTQ<u128> = RTQ::new();
        for i in &v {
            q = q.push(*i);
        }
        while !q.is_empty() {
            vp.push(*q.front());
            q = q.pop();
        }
        assert_eq!(v, vp);
    }
}

#[test]
fn versioned() {
    let mut history: Vec<Vec<u128>> = vec![Vec::new()];
    let mut history_v = vec![RTQ::new()];
    let mut version = 0;
    for _ in 0..20 {
        let mut q = history_v[version].clone();
        let mut vec = history[version].clone();
        for _ in 0..random::<u128>() % 500 {
            vec.push(random());
            q = q.push(*vec.last().unwrap());
        }
        history_v.push(q);
        history.push(vec);
        version += 1;
    }
    for i in 1..=20 {
        let mut q = history_v[i].clone();
        let mut vec = history[i].clone();
        vec.reverse();
        for _ in 0..random::<usize>() % vec.len() {
            vec.pop();
            q = q.pop();
        }
        vec.reverse();
        history_v.push(q);
        history.push(vec);
    }
    for i in 0..40 {
        let mut vp: Vec<u128> = Vec::new();
        let mut q = history_v[i].clone();
        while !q.is_empty() {
            vp.push(*q.front());
            q = q.pop();
        }
        assert_eq!(history[i], vp);
    }
}

#[test]
fn new_queue_is_empty() {
    let q: RTQ<u32> = RTQ::new();
    assert!(q.is_empty());
    assert!(drain(&q).is_empty());
}

#[test]
fn single_element() {
    let q = RTQ::new().push(42u8);
    assert!(!q.is_empty());
    assert_eq!(*q.front(), 42);
    assert!(q.pop().is_empty());
}

#[test]
fn snapshot_branches() {
    let mut s = RTQ::new();
    for i in 1..=5u32 {
        s = s.push(i);
    }
    let s1 = s.push(6).push(7);
    let s2 = s.push(100);
    assert_eq!(drain(&s1), vec![1, 2, 3, 4, 5, 6, 7]);
    assert_eq!(drain(&s2), vec![1, 2, 3, 4, 5, 100]);
    assert_eq!(drain(&s), vec![1, 2, 3, 4, 5]);
}

#[test]
fn pop_and_push_from_one_version() {
    let mut q = RTQ::new();
    for i in 0..10u32 {
        q = q.push(i);
    }
    let qa = q.pop();
    let qb = q.push(99);
    assert_eq!(drain(&qa), (1..10).collect::<Vec<u32>>());
    let mut expected: Vec<u32> = (0..10).collect();
    expected.push(99);
    assert_eq!(drain(&qb), expected);
    assert_eq!(drain(&q), (0..10).collect::<Vec<u32>>());
}

#[test]
fn alternating_near_rotation() {
    // Each push that makes the rear longer than the front starts a rotation;
    // alternating pushes and pops keeps the queue at those boundaries.
    let mut q = RTQ::new();
    let mut model: std::collections::VecDeque<u64> = std::collections::VecDeque::new();
    let mut next: u64 = 0;
    for round in 0..200u64 {
        for _ in 0..(round % 7 + 1) {
            q = q.push(next);
            model.push_back(next);
            next += 1;
        }
        for _ in 0..(round % 5) {
            if model.is_empty() {
                break;
            }
            assert_eq!(*q.front(), model.pop_front().unwrap());
            q = q.pop();
        }
        assert_eq!(q.is_empty(), model.is_empty());
    }
    assert_eq!(drain(&q), model.into_iter().collect::<Vec<u64>>());
}

#[test]
fn strings_keep_their_order() {
    let q = RTQ::new()
        .push(String::from("a"))
        .push(String::from("b"))
        .push(String::from("c"));
    assert_eq!(q.front(), "a");
    let q = q.pop();
    assert_eq!(q.front(), "b");
    let q = q.pop().push(String::from("d"));
    assert_eq!(q.front(), "c");
    assert_eq!(q.pop().front(), "d");
}
