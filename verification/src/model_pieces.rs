//! Pieces of bytes that are written into a buffer one after the other, each
//! at its own place, and what the buffer holds afterwards.

use vstd::prelude::*;
use crate::binary::{lemma_holds, spec_holds};
use crate::model_write::spec_write_at;

verus! {

/// Bytes with the place at which they are written.
pub struct Piece {
    pub at: int,
    pub bytes: Seq<u8>,
}

/// The buffer after the pieces have been written into it in their order.
pub open spec fn spec_write_pieces(buffer: Seq<u8>, pieces: Seq<Piece>) -> Seq<u8>
    decreases pieces.len(),
{
    if pieces.len() == 0 {
        buffer
    } else {
        spec_write_at(
            spec_write_pieces(buffer, pieces.drop_last()),
            pieces.last().at,
            pieces.last().bytes,
        )
    }
}

/// The piece has a byte at place `i` of the buffer.
pub open spec fn spec_piece_covers(piece: Piece, i: int) -> bool {
    piece.at <= i < piece.at + piece.bytes.len()
}

/// The byte that the piece has at place `i` of the buffer.
pub open spec fn spec_piece_byte(piece: Piece, i: int) -> u8 {
    piece.bytes[i - piece.at]
}

/// Where the two pieces share a place, they have the same byte there.
pub open spec fn spec_pieces_agree(a: Piece, b: Piece) -> bool {
    forall|i: int|
        #[trigger] spec_piece_covers(a, i) && #[trigger] spec_piece_covers(b, i)
            ==> spec_piece_byte(a, i) == spec_piece_byte(b, i)
}

/// No piece begins before `floor`, and where two pieces share a place they
/// have the same byte there: no piece changes what another one has written.
pub open spec fn spec_pieces_settled(pieces: Seq<Piece>, floor: int) -> bool {
    &&& forall|t: int| 0 <= t < pieces.len() ==> floor <= (#[trigger] pieces[t]).at
    &&& forall|a: int, b: int|
        0 <= a < b < pieces.len() ==> spec_pieces_agree(#[trigger] pieces[a], #[trigger] pieces[b])
}

/// The piece is one of the pieces.
pub open spec fn spec_has_piece(pieces: Seq<Piece>, piece: Piece) -> bool {
    exists|t: int| 0 <= t < pieces.len() && #[trigger] pieces[t] == piece
}

/// Bytes that are written stand where they were written, and the buffer has
/// not become shorter.
pub proof fn lemma_written(buffer: Seq<u8>, at: int, bytes: Seq<u8>)
    requires
        0 <= at,
        bytes.len() > 0,
    ensures
        spec_holds(spec_write_at(buffer, at, bytes), at, bytes),
        spec_write_at(buffer, at, bytes).len() >= buffer.len(),
{
    let after = spec_write_at(buffer, at, bytes);
    assert(after.subrange(at, at + bytes.len()) =~= bytes);
    lemma_holds(after, at, bytes);
}

/// What stands in a buffer still stands there after bytes have been written
/// that are the same wherever they lie on it.
pub proof fn lemma_write_keeps(buffer: Seq<u8>, at: int, bytes: Seq<u8>, place: int, kept: Seq<u8>)
    requires
        0 <= at,
        spec_holds(buffer, place, kept),
        spec_pieces_agree(Piece { at: place, bytes: kept }, Piece { at, bytes }),
    ensures
        spec_holds(spec_write_at(buffer, at, bytes), place, kept),
{
    let after = spec_write_at(buffer, at, bytes);
    let old_piece = Piece { at: place, bytes: kept };
    let new_piece = Piece { at, bytes };
    lemma_holds(buffer, place, kept);
    if bytes.len() > 0 {
        assert(after.subrange(place, place + kept.len()) =~= kept) by {
            assert forall|i: int| 0 <= i < kept.len() implies after.subrange(
                place,
                place + kept.len(),
            )[i] == kept[i] by {
                assert(buffer.subrange(place, place + kept.len())[i] == buffer[place + i]);
                assert(spec_piece_covers(old_piece, place + i));
                if spec_piece_covers(new_piece, place + i) {
                    assert(spec_piece_byte(old_piece, place + i) == spec_piece_byte(
                        new_piece,
                        place + i,
                    ));
                }
            }
        }
    }
    lemma_holds(after, place, kept);
}

/// The pieces without the last are settled where all of them are.
pub proof fn lemma_pieces_settled_before(pieces: Seq<Piece>, floor: int)
    requires
        spec_pieces_settled(pieces, floor),
        pieces.len() > 0,
    ensures
        spec_pieces_settled(pieces.drop_last(), floor),
{
    let before = pieces.drop_last();
    assert forall|t: int| 0 <= t < before.len() implies floor <= (#[trigger] before[t]).at by {
        assert(before[t] == pieces[t]);
    }
    assert forall|a: int, b: int| 0 <= a < b < before.len() implies spec_pieces_agree(
        #[trigger] before[a],
        #[trigger] before[b],
    ) by {
        assert(before[a] == pieces[a]);
        assert(before[b] == pieces[b]);
    }
}

/// After settled pieces have been written, each of them that has any bytes
/// stands at its place.
pub proof fn lemma_pieces_stand(buffer: Seq<u8>, pieces: Seq<Piece>, floor: int, piece: Piece)
    requires
        0 <= floor,
        spec_pieces_settled(pieces, floor),
        spec_has_piece(pieces, piece),
        piece.bytes.len() > 0,
    ensures
        spec_holds(spec_write_pieces(buffer, pieces), piece.at, piece.bytes),
    decreases pieces.len(),
{
    let t = choose|t: int| 0 <= t < pieces.len() && #[trigger] pieces[t] == piece;
    let last = pieces.last();
    let before = pieces.drop_last();
    let written = spec_write_pieces(buffer, before);
    assert(floor <= pieces[pieces.len() - 1].at);
    if t == pieces.len() - 1 {
        lemma_written(written, last.at, last.bytes);
    } else {
        lemma_pieces_settled_before(pieces, floor);
        assert(before[t] == piece);
        lemma_pieces_stand(buffer, before, floor, piece);
        assert(spec_pieces_agree(pieces[t], pieces[pieces.len() - 1]));
        lemma_write_keeps(written, last.at, last.bytes, piece.at, piece.bytes);
    }
}

/// Writing two lists of pieces one after the other is writing the pieces of
/// both in one list.
pub proof fn lemma_write_pieces_joined(buffer: Seq<u8>, first: Seq<Piece>, second: Seq<Piece>)
    ensures
        spec_write_pieces(buffer, first + second) == spec_write_pieces(
            spec_write_pieces(buffer, first),
            second,
        ),
    decreases second.len(),
{
    if second.len() == 0 {
        assert(first + second =~= first);
    } else {
        assert((first + second).drop_last() =~= first + second.drop_last());
        lemma_write_pieces_joined(buffer, first, second.drop_last());
    }
}

/// Writing one more piece after a list of pieces is writing the list with the
/// piece at its end.
pub proof fn lemma_write_pieces_pushed(buffer: Seq<u8>, pieces: Seq<Piece>, piece: Piece)
    ensures
        spec_write_pieces(buffer, pieces.push(piece)) == spec_write_at(
            spec_write_pieces(buffer, pieces),
            piece.at,
            piece.bytes,
        ),
{
    assert(pieces.push(piece).drop_last() =~= pieces);
}

/// A piece of one of two lists is a piece of the two joined.
pub proof fn lemma_has_piece_joined(first: Seq<Piece>, second: Seq<Piece>, piece: Piece)
    ensures
        spec_has_piece(first, piece) ==> spec_has_piece(first + second, piece),
        spec_has_piece(second, piece) ==> spec_has_piece(first + second, piece),
{
    let joined = first + second;
    if spec_has_piece(first, piece) {
        let t = choose|t: int| 0 <= t < first.len() && #[trigger] first[t] == piece;
        assert(joined[t] == piece);
    }
    if spec_has_piece(second, piece) {
        let t = choose|t: int| 0 <= t < second.len() && #[trigger] second[t] == piece;
        assert(joined[first.len() + t] == piece);
    }
}

/// The piece that is put at the end of a list is one of its pieces, and so
/// is every piece that the list had.
pub proof fn lemma_has_piece_pushed(pieces: Seq<Piece>, last: Piece, piece: Piece)
    ensures
        spec_has_piece(pieces.push(last), last),
        spec_has_piece(pieces, piece) ==> spec_has_piece(pieces.push(last), piece),
{
    let longer = pieces.push(last);
    assert(longer[pieces.len() as int] == last);
    if spec_has_piece(pieces, piece) {
        let t = choose|t: int| 0 <= t < pieces.len() && #[trigger] pieces[t] == piece;
        assert(longer[t] == piece);
    }
}

/// A piece of two lists joined is a piece of one of them.
pub proof fn lemma_has_piece_split(first: Seq<Piece>, second: Seq<Piece>, piece: Piece)
    requires
        spec_has_piece(first + second, piece),
    ensures
        spec_has_piece(first, piece) || spec_has_piece(second, piece),
{
    let joined = first + second;
    let t = choose|t: int| 0 <= t < joined.len() && #[trigger] joined[t] == piece;
    if t < first.len() {
        assert(first[t] == piece);
    } else {
        assert(second[t - first.len()] == piece);
    }
}

/// A piece of a list with one more piece at its end is that piece or a piece
/// of the list.
pub proof fn lemma_has_piece_popped(pieces: Seq<Piece>, last: Piece, piece: Piece)
    requires
        spec_has_piece(pieces.push(last), piece),
    ensures
        piece == last || spec_has_piece(pieces, piece),
{
    let longer = pieces.push(last);
    let t = choose|t: int| 0 <= t < longer.len() && #[trigger] longer[t] == piece;
    if t < pieces.len() {
        assert(pieces[t] == piece);
    }
}

/// Pieces that share no place agree.
pub proof fn lemma_apart_agree(a: Piece, b: Piece)
    requires
        a.at + a.bytes.len() <= b.at || b.at + b.bytes.len() <= a.at,
    ensures
        spec_pieces_agree(a, b),
{
}

/// Writing bytes at the start of an empty buffer and then a list of pieces
/// is writing one list that begins with the bytes.
pub proof fn lemma_write_pieces_started(bytes: Seq<u8>, pieces: Seq<Piece>)
    ensures
        spec_write_pieces(Seq::empty(), seq![Piece { at: 0, bytes }] + pieces)
            == spec_write_pieces(bytes, pieces),
        spec_has_piece(seq![Piece { at: 0, bytes }] + pieces, Piece { at: 0, bytes }),
        forall|piece: Piece|
            spec_has_piece(pieces, piece) ==> #[trigger] spec_has_piece(
                seq![Piece { at: 0, bytes }] + pieces,
                piece,
            ),
{
    let empty = Seq::<u8>::empty();
    let start = Piece { at: 0, bytes };
    let first = seq![start];
    lemma_write_pieces_joined(empty, first, pieces);
    assert(first.drop_last() =~= Seq::<Piece>::empty());
    assert(spec_write_pieces(empty, first.drop_last()) == empty);
    assert(spec_write_at(empty, 0, bytes) =~= bytes);
    assert(spec_write_pieces(empty, first) == bytes);
    assert(first[0] == start);
    lemma_has_piece_joined(first, pieces, start);
    assert forall|piece: Piece| spec_has_piece(pieces, piece) implies #[trigger] spec_has_piece(
        first + pieces,
        piece,
    ) by {
        lemma_has_piece_joined(first, pieces, piece);
    }
}

/// Every piece that has bytes stands at its place in the buffer.
pub open spec fn spec_pieces_stand(s: Seq<u8>, pieces: Seq<Piece>) -> bool {
    forall|piece: Piece|
        #[trigger] spec_has_piece(pieces, piece) && piece.bytes.len() > 0 ==> spec_holds(
            s,
            piece.at,
            piece.bytes,
        )
}

/// One of the first `n` pieces has a byte at place `i`.
pub open spec fn spec_covered(pieces: Seq<Piece>, n: int, i: int) -> bool {
    exists|t: int| 0 <= t < n && spec_piece_covers(#[trigger] pieces[t], i)
}

/// The byte at place `i` of a buffer that holds the first `n` pieces and
/// zeros elsewhere.
pub open spec fn spec_made_byte(s: Seq<u8>, pieces: Seq<Piece>, n: int, i: int) -> u8 {
    if spec_covered(pieces, n, i) {
        s[i]
    } else {
        0
    }
}

/// The buffer holds nothing but the pieces: each of them stands in it, every
/// byte that lies in none of them is zero, and its last byte lies in one.
pub open spec fn spec_only_pieces(s: Seq<u8>, pieces: Seq<Piece>) -> bool {
    &&& spec_pieces_stand(s, pieces)
    &&& forall|i: int| 0 <= i < s.len() ==> #[trigger] spec_made_byte(s, pieces, pieces.len() as int, i) == s[i]
    &&& s.len() > 0 ==> spec_covered(pieces, pieces.len() as int, s.len() - 1)
}

proof fn lemma_covered_next(pieces: Seq<Piece>, n: int, i: int)
    requires
        0 < n <= pieces.len(),
    ensures
        spec_covered(pieces, n, i) == (spec_covered(pieces, n - 1, i) || spec_piece_covers(
            pieces[n - 1],
            i,
        )),
{
    if spec_covered(pieces, n, i) {
        let t = choose|t: int| 0 <= t < n && spec_piece_covers(#[trigger] pieces[t], i);
        if t < n - 1 {
            assert(spec_covered(pieces, n - 1, i));
        }
    }
    if spec_covered(pieces, n - 1, i) {
        let t = choose|t: int| 0 <= t < n - 1 && spec_piece_covers(#[trigger] pieces[t], i);
        assert(spec_piece_covers(pieces[t], i));
    }
    if spec_piece_covers(pieces[n - 1], i) {
        assert(spec_covered(pieces, n, i));
    }
}

proof fn lemma_written_prefix(s: Seq<u8>, pieces: Seq<Piece>, n: int)
    requires
        0 <= n <= pieces.len(),
        spec_pieces_stand(s, pieces),
    ensures
        ({
            let written = spec_write_pieces(Seq::empty(), pieces.subrange(0, n));
            &&& written.len() <= s.len()
            &&& forall|t: int|
                0 <= t < n && (#[trigger] pieces[t]).bytes.len() > 0 ==> pieces[t].at
                    + pieces[t].bytes.len() <= written.len()
            &&& forall|i: int|
                0 <= i < written.len() ==> #[trigger] written[i] == spec_made_byte(s, pieces, n, i)
        }),
    decreases n,
{
    let prefix = pieces.subrange(0, n);
    let written = spec_write_pieces(Seq::empty(), prefix);
    if n == 0 {
        assert(prefix.len() == 0);
    } else {
        let last = pieces[n - 1];
        let before = spec_write_pieces(Seq::empty(), pieces.subrange(0, n - 1));
        lemma_written_prefix(s, pieces, n - 1);
        assert(prefix.drop_last() =~= pieces.subrange(0, n - 1));
        assert(prefix.last() == last);
        assert(written == spec_write_at(before, last.at, last.bytes));
        assert(spec_has_piece(pieces, last));
        if last.bytes.len() > 0 {
            lemma_holds(s, last.at, last.bytes);
        }
        assert forall|i: int| 0 <= i < written.len() implies #[trigger] written[i]
            == spec_made_byte(s, pieces, n, i) by {
            lemma_covered_next(pieces, n, i);
            if spec_piece_covers(last, i) {
                assert(s[last.at + (i - last.at)] == last.bytes[i - last.at]);
            } else if i < before.len() {
                assert(before[i] == spec_made_byte(s, pieces, n - 1, i));
            } else {
                if spec_covered(pieces, n - 1, i) {
                    let t = choose|t: int|
                        0 <= t < n - 1 && spec_piece_covers(#[trigger] pieces[t], i);
                    assert(pieces[t].at + pieces[t].bytes.len() <= before.len());
                }
            }
        }
    }
}

/// Writing the pieces into an empty buffer gives the buffer that holds
/// nothing but the pieces.
pub proof fn lemma_write_pieces_given(s: Seq<u8>, pieces: Seq<Piece>)
    requires
        spec_only_pieces(s, pieces),
    ensures
        spec_write_pieces(Seq::empty(), pieces) == s,
{
    let n = pieces.len() as int;
    let written = spec_write_pieces(Seq::empty(), pieces);
    lemma_written_prefix(s, pieces, n);
    assert(pieces.subrange(0, n) =~= pieces);
    if s.len() > 0 {
        let t = choose|t: int| 0 <= t < n && spec_piece_covers(#[trigger] pieces[t], s.len() - 1);
        assert(pieces[t].bytes.len() > 0);
    }
    assert(written.len() == s.len());
    assert forall|i: int| 0 <= i < s.len() implies written[i] == s[i] by {
        assert(spec_made_byte(s, pieces, n, i) == s[i]);
    }
    assert(written =~= s);
}

} // verus!
