use music_box_converter::note::Note;

#[test]
fn midi_pitch_round_trip() {
    for p in 0u8..=127 {
        let n = Note::from_midi_pitch(p);
        assert_eq!(n.to_midi_pitch(), p);
    }
}

#[test]
fn from_midi_pitch_conventions() {
    assert_eq!(Note::from_midi_pitch(60), Note::C(4));
    assert_eq!(Note::from_midi_pitch(61), Note::CS(4));
    assert_eq!(Note::from_midi_pitch(0), Note::C(-1));
    assert_eq!(Note::from_midi_pitch(11), Note::B(-1));
    assert_eq!(Note::from_midi_pitch(127), Note::G(9));
}

#[test]
fn transpose_identity() {
    let notes = [Note::C(4), Note::FS(-1), Note::B(9), Note::A(0), Note::GS(7)];
    for n in notes {
        assert_eq!(n.transpose(*n.get_octave()), n);
    }
}

#[test]
fn transpose_moves_only_the_octave() {
    assert_eq!(Note::C(4).transpose(2), Note::C(2));
    assert_eq!(Note::AS(1).transpose(-1), Note::AS(-1));
    assert_eq!(*Note::DS(3).get_octave(), 3);
    assert_eq!(Note::DS(3).transpose(6).to_midi_pitch(), 3 + 12 * 7);
}
