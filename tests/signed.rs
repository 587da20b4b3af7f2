use chroma_filter::signed::SignedRoaringBitmap;
use roaring::RoaringBitmap;

fn bits<I: IntoIterator<Item = u32>>(ids: I) -> RoaringBitmap {
    ids.into_iter().collect()
}

fn inc(ids: &[u32]) -> SignedRoaringBitmap {
    SignedRoaringBitmap::Include(bits(ids.iter().copied()))
}

fn exc(ids: &[u32]) -> SignedRoaringBitmap {
    SignedRoaringBitmap::Exclude(bits(ids.iter().copied()))
}

#[test]
fn and_table() {
    assert_eq!(inc(&[1, 2, 3]).bitand(inc(&[2, 3, 4])), inc(&[2, 3]));
    assert_eq!(inc(&[1, 2, 3]).bitand(exc(&[2, 4])), inc(&[1, 3]));
    assert_eq!(exc(&[2, 4]).bitand(inc(&[1, 2, 3])), inc(&[1, 3]));
    assert_eq!(exc(&[1, 2]).bitand(exc(&[2, 3])), exc(&[1, 2, 3]));
}

#[test]
fn or_table() {
    assert_eq!(inc(&[1, 2]).bitor(inc(&[2, 3])), inc(&[1, 2, 3]));
    assert_eq!(inc(&[1, 2]).bitor(exc(&[2, 3])), exc(&[3]));
    assert_eq!(exc(&[2, 3]).bitor(inc(&[1, 2])), exc(&[3]));
    assert_eq!(exc(&[1, 2]).bitor(exc(&[2, 3])), exc(&[2]));
}

#[test]
fn commutative_with_identities() {
    let samples = [inc(&[1, 5]), exc(&[5, 9]), inc(&[]), exc(&[])];
    for a in samples.iter() {
        for b in samples.iter() {
            let copy = |s: &SignedRoaringBitmap| match s {
                SignedRoaringBitmap::Include(x) => SignedRoaringBitmap::Include(x.clone()),
                SignedRoaringBitmap::Exclude(x) => SignedRoaringBitmap::Exclude(x.clone()),
            };
            assert_eq!(copy(a).bitand(copy(b)), copy(b).bitand(copy(a)));
            assert_eq!(copy(a).bitor(copy(b)), copy(b).bitor(copy(a)));
            assert_eq!(copy(a).bitand(SignedRoaringBitmap::full()), copy(a));
            assert_eq!(copy(a).bitor(SignedRoaringBitmap::empty()), copy(a));
        }
    }
}

#[test]
fn exclude_idempotent_and_cancels_include() {
    assert_eq!(exc(&[3, 7]).bitand(exc(&[3, 7])), exc(&[3, 7]));
    assert_eq!(inc(&[3, 7]).bitand(exc(&[3, 7])), SignedRoaringBitmap::empty());
}

#[test]
fn identities() {
    assert_eq!(SignedRoaringBitmap::empty(), inc(&[]));
    assert_eq!(SignedRoaringBitmap::full(), exc(&[]));
}
