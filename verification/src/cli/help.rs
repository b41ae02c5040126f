//! The text below the list of options: what this build can read and write.

use vstd::prelude::*;

verus! {

/// The optional parts that a build has.
#[derive(Debug, Clone, Copy, PartialEq, Eq, Structural)]
pub struct Features {
    /// The AVIF codec.
    pub avif: bool,
    /// The MozJPEG encoder.
    pub mozjpeg: bool,
    /// The OxiPNG encoder.
    pub oxipng: bool,
    /// The SVG decoder.
    pub svg: bool,
    /// The TIFF decoder.
    pub tiff: bool,
    /// The WebP codec.
    pub webp: bool,
    /// Resizing.
    pub resize: bool,
    /// Quantization.
    pub quantization: bool,
}

/// A line that is there only where its part is.
pub open spec fn line_if(present: bool, line: Seq<char>) -> Seq<Seq<char>> {
    if present {
        seq![line]
    } else {
        seq![]
    }
}

/// The rows of the codec table, by name.
pub open spec fn codec_rows(features: Features) -> Seq<Seq<char>> {
    Seq::<Seq<char>>::empty()
        + line_if(features.avif, "| avif          | O     | O      | Static only       |"@)
        + line_if(true, "| bmp           | O     | X      |                   |"@)
        + line_if(true, "| farbfeld      | O     | O      |                   |"@)
        + line_if(true, "| hdr           | O     | O      |                   |"@)
        + line_if(true, "| jpeg          | O     | O      |                   |"@)
        + line_if(true, "| jpeg_xl(jxl)  | O     | O      |                   |"@)
        + line_if(features.mozjpeg, "| mozjpeg(moz)  | O     | O      |                   |"@)
        + line_if(features.oxipng, "| oxipng(oxi)   | O     | O      | Static only       |"@)
        + line_if(true, "| png           | O     | O      | Static only       |"@)
        + line_if(true, "| ppm           | O     | O      |                   |"@)
        + line_if(true, "| psd           | O     | X      |                   |"@)
        + line_if(true, "| qoi           | O     | O      |                   |"@)
        + line_if(features.svg, "| svg           | O     | X      | Resize losslessly |"@)
        + line_if(features.tiff, "| tiff          | O     | X      |                   |"@)
        + line_if(features.webp, "| webp          | O     | O      | Static only       |"@)
}

/// The preprocessing options, one a line.
pub open spec fn option_rows(features: Features) -> Seq<Seq<char>> {
    Seq::<Seq<char>>::empty()
        + line_if(features.resize, "- Resize"@)
        + line_if(features.quantization, "- Quantization"@)
        + line_if(true, "- Alpha premultiply"@)
}

/// The lines, each ended by a newline.
pub open spec fn lines_text(lines: Seq<Seq<char>>) -> Seq<char>
    decreases lines.len(),
{
    if lines.len() == 0 {
        seq![]
    } else {
        lines_text(lines.drop_last()) + lines.last() + seq!['\n']
    }
}

/// The whole text.
pub open spec fn help_text(features: Features) -> Seq<char> {
    "\nList of supported codecs\n"@
        + "| Image Format  | Input | Output | Note              |\n"@
        + "| ------------- | ----- | ------ | ----------------- |\n"@
        + lines_text(codec_rows(features))
        + "\nList of supported preprocessing options\n"@
        + lines_text(option_rows(features))
        + "\nList of supported mode for output info presenting\n"@
        + "- No-progress (Shown on Default)\n"@
        + "- Quiet (Show all msgs on Default)\n"@
}

/// What the lines say.
pub open spec fn line_views(lines: Seq<&'static str>) -> Seq<Seq<char>> {
    lines.map_values(|line: &'static str| line@)
}

fn push_line(lines: &mut Vec<&'static str>, present: bool, line: &'static str)
    ensures
        line_views(final(lines)@) == line_views(old(lines)@) + line_if(present, line@),
{
    if present {
        lines.push(line);
    }
    proof {
        assert(line_views(lines@) =~= line_views(old(lines)@) + line_if(present, line@));
    }
}

fn push_lines(text: &mut String, lines: &Vec<&'static str>)
    ensures
        final(text)@ == old(text)@ + lines_text(line_views(lines@)),
{
    let mut at: usize = 0;
    proof {
        assert(line_views(lines@).take(0) =~= seq![]);
        assert(text@ =~= old(text)@ + lines_text(line_views(lines@).take(0)));
    }
    while at < lines.len()
        invariant
            at <= lines.len(),
            text@ == old(text)@ + lines_text(line_views(lines@).take(at as int)),
        decreases lines.len() - at,
    {
        let ghost before = text@;
        text.append(lines[at]);
        text.append("\n");
        proof {
            reveal_strlit("\n");
            let shown = line_views(lines@);
            assert(shown.take(at + 1).drop_last() =~= shown.take(at as int));
            assert(shown.take(at + 1).last() == lines@[at as int]@);
            assert(text@ =~= old(text)@ + lines_text(shown.take(at + 1)));
        }
        at = at + 1;
    }
    proof {
        assert(line_views(lines@).take(at as int) =~= line_views(lines@));
    }
}

fn codec_table(features: Features) -> (rows: Vec<&'static str>)
    ensures
        line_views(rows@) == codec_rows(features),
{
    let mut rows: Vec<&'static str> = Vec::new();
    proof {
        assert(line_views(rows@) =~= Seq::<Seq<char>>::empty());
    }
    push_line(&mut rows, features.avif, "| avif          | O     | O      | Static only       |");
    push_line(&mut rows, true, "| bmp           | O     | X      |                   |");
    push_line(&mut rows, true, "| farbfeld      | O     | O      |                   |");
    push_line(&mut rows, true, "| hdr           | O     | O      |                   |");
    push_line(&mut rows, true, "| jpeg          | O     | O      |                   |");
    push_line(&mut rows, true, "| jpeg_xl(jxl)  | O     | O      |                   |");
    push_line(&mut rows, features.mozjpeg, "| mozjpeg(moz)  | O     | O      |                   |");
    push_line(&mut rows, features.oxipng, "| oxipng(oxi)   | O     | O      | Static only       |");
    push_line(&mut rows, true, "| png           | O     | O      | Static only       |");
    push_line(&mut rows, true, "| ppm           | O     | O      |                   |");
    push_line(&mut rows, true, "| psd           | O     | X      |                   |");
    push_line(&mut rows, true, "| qoi           | O     | O      |                   |");
    push_line(&mut rows, features.svg, "| svg           | O     | X      | Resize losslessly |");
    push_line(&mut rows, features.tiff, "| tiff          | O     | X      |                   |");
    push_line(&mut rows, features.webp, "| webp          | O     | O      | Static only       |");
    rows
}

fn option_list(features: Features) -> (rows: Vec<&'static str>)
    ensures
        line_views(rows@) == option_rows(features),
{
    let mut rows: Vec<&'static str> = Vec::new();
    proof {
        assert(line_views(rows@) =~= Seq::<Seq<char>>::empty());
    }
    push_line(&mut rows, features.resize, "- Resize");
    push_line(&mut rows, features.quantization, "- Quantization");
    push_line(&mut rows, true, "- Alpha premultiply");
    rows
}

/// The text shown below the options: the codecs and preprocessing options that
/// this build has, and no others.
pub fn after_help(features: Features) -> (text: String)
    ensures
        text@ == help_text(features),
{
    let rows = codec_table(features);
    let options = option_list(features);
    let mut text = "\nList of supported codecs\n".to_owned();
    text.append("| Image Format  | Input | Output | Note              |\n");
    text.append("| ------------- | ----- | ------ | ----------------- |\n");
    push_lines(&mut text, &rows);
    text.append("\nList of supported preprocessing options\n");
    push_lines(&mut text, &options);
    text.append("\nList of supported mode for output info presenting\n");
    text.append("- No-progress (Shown on Default)\n");
    text.append("- Quiet (Show all msgs on Default)\n");
    text
}

proof fn lemma_listed(lines: Seq<Seq<char>>, present: bool, line: Seq<char>, wanted: Seq<char>)
    ensures
        (lines + line_if(present, line)).contains(wanted) <==> lines.contains(wanted) || (present
            && line == wanted),
{
    let all = lines + line_if(present, line);
    if lines.contains(wanted) {
        let i = choose|i: int| 0 <= i < lines.len() && lines[i] == wanted;
        assert(all[i] == wanted);
    }
    if present && line == wanted {
        assert(all[lines.len() as int] == wanted);
    }
    if all.contains(wanted) {
        let i = choose|i: int| 0 <= i < all.len() && all[i] == wanted;
        if i < lines.len() {
            assert(lines[i] == wanted);
        }
    }
}

proof fn lemma_codec_rows(features: Features, wanted: Seq<char>)
    ensures
        codec_rows(features).contains(wanted) <==> {
            ||| features.avif && wanted == "| avif          | O     | O      | Static only       |"@
            ||| wanted == "| bmp           | O     | X      |                   |"@
            ||| wanted == "| farbfeld      | O     | O      |                   |"@
            ||| wanted == "| hdr           | O     | O      |                   |"@
            ||| wanted == "| jpeg          | O     | O      |                   |"@
            ||| wanted == "| jpeg_xl(jxl)  | O     | O      |                   |"@
            ||| features.mozjpeg && wanted == "| mozjpeg(moz)  | O     | O      |                   |"@
            ||| features.oxipng && wanted == "| oxipng(oxi)   | O     | O      | Static only       |"@
            ||| wanted == "| png           | O     | O      | Static only       |"@
            ||| wanted == "| ppm           | O     | O      |                   |"@
            ||| wanted == "| psd           | O     | X      |                   |"@
            ||| wanted == "| qoi           | O     | O      |                   |"@
            ||| features.svg && wanted == "| svg           | O     | X      | Resize losslessly |"@
            ||| features.tiff && wanted == "| tiff          | O     | X      |                   |"@
            ||| features.webp && wanted == "| webp          | O     | O      | Static only       |"@
        },
{
    let none = Seq::<Seq<char>>::empty();
    let upto0 = none + line_if(features.avif, "| avif          | O     | O      | Static only       |"@);
    lemma_listed(none, features.avif, "| avif          | O     | O      | Static only       |"@, wanted);
    let upto1 = upto0 + line_if(true, "| bmp           | O     | X      |                   |"@);
    lemma_listed(upto0, true, "| bmp           | O     | X      |                   |"@, wanted);
    let upto2 = upto1 + line_if(true, "| farbfeld      | O     | O      |                   |"@);
    lemma_listed(upto1, true, "| farbfeld      | O     | O      |                   |"@, wanted);
    let upto3 = upto2 + line_if(true, "| hdr           | O     | O      |                   |"@);
    lemma_listed(upto2, true, "| hdr           | O     | O      |                   |"@, wanted);
    let upto4 = upto3 + line_if(true, "| jpeg          | O     | O      |                   |"@);
    lemma_listed(upto3, true, "| jpeg          | O     | O      |                   |"@, wanted);
    let upto5 = upto4 + line_if(true, "| jpeg_xl(jxl)  | O     | O      |                   |"@);
    lemma_listed(upto4, true, "| jpeg_xl(jxl)  | O     | O      |                   |"@, wanted);
    let upto6 = upto5 + line_if(features.mozjpeg, "| mozjpeg(moz)  | O     | O      |                   |"@);
    lemma_listed(upto5, features.mozjpeg, "| mozjpeg(moz)  | O     | O      |                   |"@, wanted);
    let upto7 = upto6 + line_if(features.oxipng, "| oxipng(oxi)   | O     | O      | Static only       |"@);
    lemma_listed(upto6, features.oxipng, "| oxipng(oxi)   | O     | O      | Static only       |"@, wanted);
    let upto8 = upto7 + line_if(true, "| png           | O     | O      | Static only       |"@);
    lemma_listed(upto7, true, "| png           | O     | O      | Static only       |"@, wanted);
    let upto9 = upto8 + line_if(true, "| ppm           | O     | O      |                   |"@);
    lemma_listed(upto8, true, "| ppm           | O     | O      |                   |"@, wanted);
    let upto10 = upto9 + line_if(true, "| psd           | O     | X      |                   |"@);
    lemma_listed(upto9, true, "| psd           | O     | X      |                   |"@, wanted);
    let upto11 = upto10 + line_if(true, "| qoi           | O     | O      |                   |"@);
    lemma_listed(upto10, true, "| qoi           | O     | O      |                   |"@, wanted);
    let upto12 = upto11 + line_if(features.svg, "| svg           | O     | X      | Resize losslessly |"@);
    lemma_listed(upto11, features.svg, "| svg           | O     | X      | Resize losslessly |"@, wanted);
    let upto13 = upto12 + line_if(features.tiff, "| tiff          | O     | X      |                   |"@);
    lemma_listed(upto12, features.tiff, "| tiff          | O     | X      |                   |"@, wanted);
    let upto14 = upto13 + line_if(features.webp, "| webp          | O     | O      | Static only       |"@);
    lemma_listed(upto13, features.webp, "| webp          | O     | O      | Static only       |"@, wanted);
}

/// The codec table has these rows and no others.
pub proof fn law_the_codec_table_has_these_rows(features: Features, wanted: Seq<char>)
    ensures
        codec_rows(features).contains(wanted) <==> {
            ||| features.avif && wanted == "| avif          | O     | O      | Static only       |"@
            ||| wanted == "| bmp           | O     | X      |                   |"@
            ||| wanted == "| farbfeld      | O     | O      |                   |"@
            ||| wanted == "| hdr           | O     | O      |                   |"@
            ||| wanted == "| jpeg          | O     | O      |                   |"@
            ||| wanted == "| jpeg_xl(jxl)  | O     | O      |                   |"@
            ||| features.mozjpeg && wanted == "| mozjpeg(moz)  | O     | O      |                   |"@
            ||| features.oxipng && wanted == "| oxipng(oxi)   | O     | O      | Static only       |"@
            ||| wanted == "| png           | O     | O      | Static only       |"@
            ||| wanted == "| ppm           | O     | O      |                   |"@
            ||| wanted == "| psd           | O     | X      |                   |"@
            ||| wanted == "| qoi           | O     | O      |                   |"@
            ||| features.svg && wanted == "| svg           | O     | X      | Resize losslessly |"@
            ||| features.tiff && wanted == "| tiff          | O     | X      |                   |"@
            ||| features.webp && wanted == "| webp          | O     | O      | Static only       |"@
        },
{
    lemma_codec_rows(features, wanted);
}

/// A codec that a build may lack is listed exactly where the build has it.
pub proof fn law_a_codec_is_listed_where_it_exists(features: Features)
    ensures
        codec_rows(features).contains("| avif          | O     | O      | Static only       |"@) <==> features.avif,
        codec_rows(features).contains("| mozjpeg(moz)  | O     | O      |                   |"@) <==> features.mozjpeg,
        codec_rows(features).contains("| oxipng(oxi)   | O     | O      | Static only       |"@) <==> features.oxipng,
        codec_rows(features).contains("| svg           | O     | X      | Resize losslessly |"@) <==> features.svg,
        codec_rows(features).contains("| tiff          | O     | X      |                   |"@) <==> features.tiff,
        codec_rows(features).contains("| webp          | O     | O      | Static only       |"@) <==> features.webp,
{
    lemma_codec_rows(features, "| avif          | O     | O      | Static only       |"@);
    lemma_codec_rows(features, "| mozjpeg(moz)  | O     | O      |                   |"@);
    lemma_codec_rows(features, "| oxipng(oxi)   | O     | O      | Static only       |"@);
    lemma_codec_rows(features, "| svg           | O     | X      | Resize losslessly |"@);
    lemma_codec_rows(features, "| tiff          | O     | X      |                   |"@);
    lemma_codec_rows(features, "| webp          | O     | O      | Static only       |"@);
    reveal_strlit("| avif          | O     | O      | Static only       |");
    reveal_strlit("| bmp           | O     | X      |                   |");
    reveal_strlit("| farbfeld      | O     | O      |                   |");
    reveal_strlit("| hdr           | O     | O      |                   |");
    reveal_strlit("| jpeg          | O     | O      |                   |");
    reveal_strlit("| jpeg_xl(jxl)  | O     | O      |                   |");
    reveal_strlit("| mozjpeg(moz)  | O     | O      |                   |");
    reveal_strlit("| oxipng(oxi)   | O     | O      | Static only       |");
    reveal_strlit("| png           | O     | O      | Static only       |");
    reveal_strlit("| ppm           | O     | O      |                   |");
    reveal_strlit("| psd           | O     | X      |                   |");
    reveal_strlit("| qoi           | O     | O      |                   |");
    reveal_strlit("| svg           | O     | X      | Resize losslessly |");
    reveal_strlit("| tiff          | O     | X      |                   |");
    reveal_strlit("| webp          | O     | O      | Static only       |");
    assert("| avif          | O     | O      | Static only       |"@[2] == 'a');
    assert("| bmp           | O     | X      |                   |"@[2] == 'b');
    assert("| farbfeld      | O     | O      |                   |"@[2] == 'f');
    assert("| hdr           | O     | O      |                   |"@[2] == 'h');
    assert("| jpeg          | O     | O      |                   |"@[2] == 'j');
    assert("| jpeg_xl(jxl)  | O     | O      |                   |"@[2] == 'j');
    assert("| mozjpeg(moz)  | O     | O      |                   |"@[2] == 'm');
    assert("| oxipng(oxi)   | O     | O      | Static only       |"@[2] == 'o');
    assert("| png           | O     | O      | Static only       |"@[2] == 'p');
    assert("| ppm           | O     | O      |                   |"@[2] == 'p');
    assert("| psd           | O     | X      |                   |"@[2] == 'p');
    assert("| qoi           | O     | O      |                   |"@[2] == 'q');
    assert("| svg           | O     | X      | Resize losslessly |"@[2] == 's');
    assert("| tiff          | O     | X      |                   |"@[2] == 't');
    assert("| webp          | O     | O      | Static only       |"@[2] == 'w');
}

/// A preprocessing option is listed exactly where the build has it.
pub proof fn law_an_option_is_listed_where_it_exists(features: Features)
    ensures
        option_rows(features).contains("- Resize"@) <==> features.resize,
        option_rows(features).contains("- Quantization"@) <==> features.quantization,
        option_rows(features).contains("- Alpha premultiply"@),
{
    reveal_strlit("- Resize");
    reveal_strlit("- Quantization");
    reveal_strlit("- Alpha premultiply");
    let none = Seq::<Seq<char>>::empty();
    let first = none + line_if(features.resize, "- Resize"@);
    let second = first + line_if(features.quantization, "- Quantization"@);
    assert("- Resize"@.len() == 8 && "- Quantization"@.len() == 14 && "- Alpha premultiply"@.len()
        == 19);
    lemma_listed(none, features.resize, "- Resize"@, "- Resize"@);
    lemma_listed(none, features.resize, "- Resize"@, "- Quantization"@);
    lemma_listed(first, features.quantization, "- Quantization"@, "- Resize"@);
    lemma_listed(first, features.quantization, "- Quantization"@, "- Quantization"@);
    lemma_listed(second, true, "- Alpha premultiply"@, "- Resize"@);
    lemma_listed(second, true, "- Alpha premultiply"@, "- Quantization"@);
    lemma_listed(second, true, "- Alpha premultiply"@, "- Alpha premultiply"@);
}

/// A text holds every one of its lines, each ended by a newline.
proof fn lemma_line_is_there(lines: Seq<Seq<char>>, at: int)
    requires
        0 <= at < lines.len(),
    ensures
        crate::reports::mentions(lines_text(lines), lines[at] + seq!['\n']),
    decreases lines.len(),
{
    let before = lines_text(lines.drop_last());
    let last = lines.last() + seq!['\n'];
    assert(lines_text(lines) =~= before + last);
    if at == lines.len() - 1 {
        crate::reports::lemma_mentions_at_end(before, last);
    } else {
        lemma_line_is_there(lines.drop_last(), at);
        crate::reports::lemma_mentions_longer(before, lines[at] + seq!['\n'], last);
    }
}

/// The help names every codec and every preprocessing option that is listed, each
/// on a line of its own.
pub proof fn law_the_help_names_what_is_listed(features: Features, row: Seq<char>)
    requires
        codec_rows(features).contains(row) || option_rows(features).contains(row),
    ensures
        crate::reports::mentions(help_text(features), row + seq!['\n']),
{
    let line = row + seq!['\n'];
    let codecs = lines_text(codec_rows(features));
    let options = lines_text(option_rows(features));
    let head = "\nList of supported codecs\n"@
        + "| Image Format  | Input | Output | Note              |\n"@
        + "| ------------- | ----- | ------ | ----------------- |\n"@;
    let middle = "\nList of supported preprocessing options\n"@;
    let tail = "\nList of supported mode for output info presenting\n"@
        + "- No-progress (Shown on Default)\n"@ + "- Quiet (Show all msgs on Default)\n"@;
    assert(help_text(features) =~= head + (codecs + (middle + options + tail)));
    assert(help_text(features) =~= (head + codecs + middle) + (options + tail));
    if codec_rows(features).contains(row) {
        let at = choose|at: int| 0 <= at < codec_rows(features).len() && codec_rows(features)[at] == row;
        lemma_line_is_there(codec_rows(features), at);
        crate::reports::lemma_mentions_longer(codecs, line, middle + options + tail);
        crate::reports::lemma_mentions_longer(codecs + (middle + options + tail), line, head);
    } else {
        let at = choose|at: int| 0 <= at < option_rows(features).len() && option_rows(features)[at] == row;
        lemma_line_is_there(option_rows(features), at);
        crate::reports::lemma_mentions_longer(options, line, tail);
        crate::reports::lemma_mentions_longer(options + tail, line, head + codecs + middle);
    }
}

} // verus!
