use intermezzo::chess::Chess_Board;
use intermezzo::render::glyph;

#[test]
fn glyphs() {
    let codes: [i8; 13] = [-6, -5, -4, -3, -2, -1, 0, 1, 2, 3, 4, 5, 6];
    let letters = ['k', 'q', 'r', 'b', 'n', 'p', ' ', 'P', 'N', 'B', 'R', 'Q', 'K'];
    for i in 0..13 {
        assert_eq!(glyph(codes[i]), Some(letters[i]));
    }
    assert_eq!(glyph(7), None);
    assert_eq!(glyph(-7), None);
    assert_eq!(glyph(127), None);
    assert_eq!(glyph(-128), None);
}

#[test]
fn text_of_the_starting_position() {
    let text: String = Chess_Board::default().board_text().into_iter().collect();
    let expected = [
        "+ --- + --- + --- + --- + --- + --- + --- + --- +\n",
        "|  R  |  N  |  B  |  Q  |  K  |  B  |  N  |  R  |  \n",
        "+ --- + --- + --- + --- + --- + --- + --- + --- +\n",
        "|  P  |  P  |  P  |  P  |  P  |  P  |  P  |  P  |  \n",
        "+ --- + --- + --- + --- + --- + --- + --- + --- +\n",
        "|     |     |     |     |     |     |     |     |  \n",
        "+ --- + --- + --- + --- + --- + --- + --- + --- +\n",
        "|     |     |     |     |     |     |     |     |  \n",
        "+ --- + --- + --- + --- + --- + --- + --- + --- +\n",
        "|     |     |     |     |     |     |     |     |  \n",
        "+ --- + --- + --- + --- + --- + --- + --- + --- +\n",
        "|     |     |     |     |     |     |     |     |  \n",
        "+ --- + --- + --- + --- + --- + --- + --- + --- +\n",
        "|  p  |  p  |  p  |  p  |  p  |  p  |  p  |  p  |  \n",
        "+ --- + --- + --- + --- + --- + --- + --- + --- +\n",
        "|  r  |  n  |  b  |  q  |  k  |  b  |  n  |  r  |  \n",
        "+ --- + --- + --- + --- + --- + --- + --- + --- +\n",
    ]
    .concat();
    assert_eq!(text, expected);
    assert_eq!(text.lines().count(), 17);
}

#[test]
fn text_skips_codes_without_a_letter() {
    let mut board = Chess_Board::default();
    let mut layout = board.board;
    layout[0] = 9;
    layout[63] = -7;
    board.configure_board(layout);
    let text: String = board.board_text().into_iter().collect();
    let lines: Vec<&str> = text.lines().collect();
    assert_eq!(lines.len(), 17);
    assert_eq!(lines[1], "|    |  N  |  B  |  Q  |  K  |  B  |  N  |  R  |  ");
    assert_eq!(lines[15], "|  r  |  n  |  b  |  q  |  k  |  b  |  n  |    |  ");
    assert_eq!(lines[16], "+ --- + --- + --- + --- + --- + --- + --- + --- +");
    assert!(text.ends_with("+\n"));
}
