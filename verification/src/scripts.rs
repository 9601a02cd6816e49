//! What the scripts for a package's binaries run.

use vstd::prelude::*;
use vstd::string::*;

use crate::tarball::{replace_all, windows_script, windows_template};
use crate::text::{occurs_at, starts_with};

verus! {

/// Whether `a` holds no `c`.
pub open spec fn free_of(a: Seq<char>, c: char) -> bool
    decreases a.len(),
{
    a.len() == 0 || (a[0] != c && free_of(a.drop_first(), c))
}

proof fn lemma_free_of(a: Seq<char>, c: char)
    requires
        forall|i: int| 0 <= i < a.len() ==> a[i] != c,
    ensures
        free_of(a, c),
    decreases a.len(),
{
    if a.len() > 0 {
        assert forall|i: int| 0 <= i < a.drop_first().len() implies a.drop_first()[i] != c by {
            assert(a.drop_first()[i] == a[i + 1]);
        }
        lemma_free_of(a.drop_first(), c);
    }
}

/// Text in front that holds no first character of the pattern is kept.
proof fn lemma_replace_free(a: Seq<char>, s: Seq<char>, pat: Seq<char>, rep: Seq<char>)
    requires
        pat.len() > 0,
        free_of(a, pat[0]),
    ensures
        replace_all(a + s, pat, rep) == a + replace_all(s, pat, rep),
    decreases a.len(),
{
    if a.len() == 0 {
        assert(a + s =~= s);
        assert(a + replace_all(s, pat, rep) =~= replace_all(s, pat, rep));
    } else {
        let x = a + s;
        assert(x[0] == a[0]);
        if x.len() >= pat.len() {
            assert(x.subrange(0, pat.len() as int)[0] == x[0]);
        }
        assert(!starts_with(x, pat));
        assert(x.drop_first() =~= a.drop_first() + s);
        lemma_replace_free(a.drop_first(), s, pat, rep);
        assert(seq![a[0]] + (a.drop_first() + replace_all(s, pat, rep)) =~= a + replace_all(s, pat, rep));
    }
}

/// Text in front that starts like the pattern but departs from it at `j`,
/// and holds no first character of the pattern after its own first, is
/// kept.
proof fn lemma_replace_mismatch(a: Seq<char>, s: Seq<char>, pat: Seq<char>, rep: Seq<char>, j: int)
    requires
        pat.len() > 0,
        a.len() > 0,
        0 < j < a.len(),
        j < pat.len(),
        a[j] != pat[j],
        free_of(a.drop_first(), pat[0]),
    ensures
        replace_all(a + s, pat, rep) == a + replace_all(s, pat, rep),
{
    let x = a + s;
    assert(x[j] == a[j]);
    if x.len() >= pat.len() {
        assert(x.subrange(0, pat.len() as int)[j] == x[j]);
    }
    assert(!starts_with(x, pat));
    assert(x.drop_first() =~= a.drop_first() + s);
    assert(x[0] == a[0]);
    lemma_replace_free(a.drop_first(), s, pat, rep);
    assert(seq![a[0]] + (a.drop_first() + replace_all(s, pat, rep)) =~= a + replace_all(s, pat, rep));
}

/// An occurrence of the pattern in front is replaced.
proof fn lemma_replace_match(s: Seq<char>, pat: Seq<char>, rep: Seq<char>)
    requires
        pat.len() > 0,
    ensures
        replace_all(pat + s, pat, rep) == rep + replace_all(s, pat, rep),
{
    assert((pat + s).subrange(0, pat.len() as int) =~= pat);
    assert((pat + s).skip(pat.len() as int) =~= s);
}

/// The pieces of the script's template hold no `%`, but where the
/// pattern's first character stands at their front.
proof fn lemma_template_pieces()
    ensures
        free_of("\n       "@, '%'),
        free_of("     @IF"@, '%'),
        free_of(" EXIST \""@, '%'),
        free_of("%~dp0\\n"@.drop_first(), '%'),
        "%~dp0\\n"@.len() == 7,
        "%~dp0\\n"@[6] == 'n',
        free_of("ode.exe\""@, '%'),
        free_of(" (\n     "@, '%'),
        free_of("        "@, '%'),
        free_of("   \""@, '%'),
        free_of("  \""@, '%'),
        free_of("\" "@, '%'),
        free_of("%*"@.drop_first(), '%'),
        "%*"@.len() == 2,
        "%*"@[1] == '*',
        free_of(" ) ELSE "@, '%'),
        free_of("(\n      "@, '%'),
        free_of("      @S"@, '%'),
        free_of("ETLOCAL\n"@, '%'),
        free_of("    @SET"@, '%'),
        free_of(" PATHEXT"@, '%'),
        free_of("="@, '%'),
        free_of("%P"@.drop_first(), '%'),
        "%P"@.len() == 2,
        "%P"@[1] == 'P',
        free_of("ATHEXT:;"@, '%'),
        free_of(".JS;=;"@, '%'),
        free_of("%\n"@.drop_first(), '%'),
        "%\n"@.len() == 2,
        "%\n"@[1] == '\n',
        free_of("    node"@, '%'),
        free_of("     )"@, '%'),
        free_of("\\"@, '%'),
        "%~dp0\\.."@ == seq!['%', '~', 'd', 'p', '0', '\\', '.', '.'],
{
    reveal_strlit("\n       ");
    reveal_strlit("     @IF");
    reveal_strlit(" EXIST \"");
    reveal_strlit("%~dp0\\n");
    reveal_strlit("ode.exe\"");
    reveal_strlit(" (\n     ");
    reveal_strlit("        ");
    reveal_strlit("   \"");
    reveal_strlit("  \"");
    reveal_strlit("\" ");
    reveal_strlit("%*");
    reveal_strlit(" ) ELSE ");
    reveal_strlit("(\n      ");
    reveal_strlit("      @S");
    reveal_strlit("ETLOCAL\n");
    reveal_strlit("    @SET");
    reveal_strlit(" PATHEXT");
    reveal_strlit("=");
    reveal_strlit("%P");
    reveal_strlit("ATHEXT:;");
    reveal_strlit(".JS;=;");
    reveal_strlit("%\n");
    reveal_strlit("    node");
    reveal_strlit("     )");
    reveal_strlit("\\");
    reveal_strlit("%~dp0\\..");
    reveal_with_fuel(free_of, 10);
    assert("%~dp0\\.."@ =~= seq!['%', '~', 'd', 'p', '0', '\\', '.', '.']);
}

/// The template's text around the store path, the name and the file.
proof fn lemma_template_shape()
    ensures
        "\n            @IF EXIST \"%~dp0\\node.exe\" (\n                \"%~dp0\\node.exe\"  \"%~dp0\\..\\"@ == "\n            @IF EXIST \"%~dp0\\node.exe\" (\n                \"%~dp0\\node.exe\"  \""@ + "%~dp0\\.."@ + "\\"@,
        "\" %*\n                ) ELSE (\n                    @SETLOCAL\n                    @SET PATHEXT=%PATHEXT:;.JS;=;%\n                    node  \"%~dp0\\..\\"@ == "\" %*\n                ) ELSE (\n                    @SETLOCAL\n                    @SET PATHEXT=%PATHEXT:;.JS;=;%\n                    node  \""@ + "%~dp0\\.."@ + "\\"@,
{
    reveal_strlit("\n            @IF EXIST \"%~dp0\\node.exe\" (\n                \"%~dp0\\node.exe\"  \"");
    reveal_strlit("\" %*\n                ) ELSE (\n                    @SETLOCAL\n                    @SET PATHEXT=%PATHEXT:;.JS;=;%\n                    node  \"");
    reveal_strlit("\n            @IF EXIST \"%~dp0\\node.exe\" (\n                \"%~dp0\\node.exe\"  \"%~dp0\\..\\");
    reveal_strlit("\" %*\n                ) ELSE (\n                    @SETLOCAL\n                    @SET PATHEXT=%PATHEXT:;.JS;=;%\n                    node  \"%~dp0\\..\\");
    reveal_strlit("%~dp0\\..");
    reveal_strlit("\\");
    assert("\n            @IF EXIST \"%~dp0\\node.exe\" (\n                \"%~dp0\\node.exe\"  \"%~dp0\\..\\"@ =~= "\n            @IF EXIST \"%~dp0\\node.exe\" (\n                \"%~dp0\\node.exe\"  \""@ + "%~dp0\\.."@ + "\\"@);
    assert("\" %*\n                ) ELSE (\n                    @SETLOCAL\n                    @SET PATHEXT=%PATHEXT:;.JS;=;%\n                    node  \"%~dp0\\..\\"@ =~= "\" %*\n                ) ELSE (\n                    @SETLOCAL\n                    @SET PATHEXT=%PATHEXT:;.JS;=;%\n                    node  \""@ + "%~dp0\\.."@ + "\\"@);
}

/// A piece of the script template is kept by the replacement.
#[verifier::spinoff_prover]
proof fn lemma_keep_piece_1(s: Seq<char>, rep: Seq<char>)
    ensures
        replace_all("\n            @IF EXIST \"%~dp0\\node.exe\""@ + s, "%~dp0\\.."@, rep) == "\n            @IF EXIST \"%~dp0\\node.exe\""@ + replace_all(s, "%~dp0\\.."@, rep),
{
    let pat = "%~dp0\\.."@;
    reveal_strlit("\n            @IF EXIST \"%~dp0\\node.exe\"");
    reveal_strlit("\n       ");
    reveal_strlit("     @IF");
    reveal_strlit(" EXIST \"");
    reveal_strlit("%~dp0\\n");
    reveal_strlit("ode.exe\"");
    assert("\n            @IF EXIST \"%~dp0\\node.exe\""@ =~= "\n       "@ + "     @IF"@ + " EXIST \""@ + "%~dp0\\n"@ + "ode.exe\""@);
    let t5 = s;
    let t4 = "ode.exe\""@ + t5;
    let t3 = "%~dp0\\n"@ + t4;
    let t2 = " EXIST \""@ + t3;
    let t1 = "     @IF"@ + t2;
    let t0 = "\n       "@ + t1;
    lemma_template_pieces();
    lemma_replace_free("ode.exe\""@, t5, pat, rep);
    lemma_replace_mismatch("%~dp0\\n"@, t4, pat, rep, 6);
    lemma_replace_free(" EXIST \""@, t3, pat, rep);
    lemma_replace_free("     @IF"@, t2, pat, rep);
    lemma_replace_free("\n       "@, t1, pat, rep);
    assert("\n            @IF EXIST \"%~dp0\\node.exe\""@ + s =~= t0);
    assert(t5 == s);
}

/// A piece of the script template is kept by the replacement.
#[verifier::spinoff_prover]
proof fn lemma_keep_piece_2(s: Seq<char>, rep: Seq<char>)
    ensures
        replace_all(" (\n                \"%~dp0\\node.exe\""@ + s, "%~dp0\\.."@, rep) == " (\n                \"%~dp0\\node.exe\""@ + replace_all(s, "%~dp0\\.."@, rep),
{
    let pat = "%~dp0\\.."@;
    reveal_strlit(" (\n                \"%~dp0\\node.exe\"");
    reveal_strlit(" (\n     ");
    reveal_strlit("        ");
    reveal_strlit("   \"");
    reveal_strlit("%~dp0\\n");
    reveal_strlit("ode.exe\"");
    assert(" (\n                \"%~dp0\\node.exe\""@ =~= " (\n     "@ + "        "@ + "   \""@ + "%~dp0\\n"@ + "ode.exe\""@);
    let t5 = s;
    let t4 = "ode.exe\""@ + t5;
    let t3 = "%~dp0\\n"@ + t4;
    let t2 = "   \""@ + t3;
    let t1 = "        "@ + t2;
    let t0 = " (\n     "@ + t1;
    lemma_template_pieces();
    lemma_replace_free("ode.exe\""@, t5, pat, rep);
    lemma_replace_mismatch("%~dp0\\n"@, t4, pat, rep, 6);
    lemma_replace_free("   \""@, t3, pat, rep);
    lemma_replace_free("        "@, t2, pat, rep);
    lemma_replace_free(" (\n     "@, t1, pat, rep);
    assert(" (\n                \"%~dp0\\node.exe\""@ + s =~= t0);
    assert(t5 == s);
}

/// A piece of the script template is kept by the replacement.
#[verifier::spinoff_prover]
proof fn lemma_keep_piece_3(s: Seq<char>, rep: Seq<char>)
    ensures
        replace_all("  \""@ + s, "%~dp0\\.."@, rep) == "  \""@ + replace_all(s, "%~dp0\\.."@, rep),
{
    let pat = "%~dp0\\.."@;
    let t1 = s;
    let t0 = "  \""@ + t1;
    lemma_template_pieces();
    lemma_replace_free("  \""@, t1, pat, rep);
    assert("  \""@ + s =~= t0);
    assert(t1 == s);
}

/// The template text before the first store path is kept.
#[verifier::spinoff_prover]
proof fn lemma_keep_if_part(s: Seq<char>, rep: Seq<char>)
    ensures
        replace_all("\n            @IF EXIST \"%~dp0\\node.exe\" (\n                \"%~dp0\\node.exe\"  \""@ + s, "%~dp0\\.."@, rep) == "\n            @IF EXIST \"%~dp0\\node.exe\" (\n                \"%~dp0\\node.exe\"  \""@ + replace_all(s, "%~dp0\\.."@, rep),
{
    let pat = "%~dp0\\.."@;
    reveal_strlit("\n            @IF EXIST \"%~dp0\\node.exe\" (\n                \"%~dp0\\node.exe\"  \"");
    reveal_strlit("\n            @IF EXIST \"%~dp0\\node.exe\"");
    reveal_strlit(" (\n                \"%~dp0\\node.exe\"");
    reveal_strlit("  \"");
    assert("\n            @IF EXIST \"%~dp0\\node.exe\" (\n                \"%~dp0\\node.exe\"  \""@ =~= "\n            @IF EXIST \"%~dp0\\node.exe\""@ + " (\n                \"%~dp0\\node.exe\""@ + "  \""@);
    let t3 = s;
    let t2 = "  \""@ + t3;
    let t1 = " (\n                \"%~dp0\\node.exe\""@ + t2;
    let t0 = "\n            @IF EXIST \"%~dp0\\node.exe\""@ + t1;
    lemma_template_pieces();
    lemma_keep_piece_3(t3, rep);
    lemma_keep_piece_2(t2, rep);
    lemma_keep_piece_1(t1, rep);
    assert("\n            @IF EXIST \"%~dp0\\node.exe\" (\n                \"%~dp0\\node.exe\"  \""@ + s =~= t0);
    assert(t3 == s);
}

/// A piece of the script template is kept by the replacement.
#[verifier::spinoff_prover]
proof fn lemma_keep_piece_4(s: Seq<char>, rep: Seq<char>)
    ensures
        replace_all("\" %*\n                ) ELSE "@ + s, "%~dp0\\.."@, rep) == "\" %*\n                ) ELSE "@ + replace_all(s, "%~dp0\\.."@, rep),
{
    let pat = "%~dp0\\.."@;
    reveal_strlit("\" %*\n                ) ELSE ");
    reveal_strlit("\" ");
    reveal_strlit("%*");
    reveal_strlit("\n       ");
    reveal_strlit("        ");
    reveal_strlit(" ) ELSE ");
    assert("\" %*\n                ) ELSE "@ =~= "\" "@ + "%*"@ + "\n       "@ + "        "@ + " ) ELSE "@);
    let t5 = s;
    let t4 = " ) ELSE "@ + t5;
    let t3 = "        "@ + t4;
    let t2 = "\n       "@ + t3;
    let t1 = "%*"@ + t2;
    let t0 = "\" "@ + t1;
    lemma_template_pieces();
    lemma_replace_free(" ) ELSE "@, t5, pat, rep);
    lemma_replace_free("        "@, t4, pat, rep);
    lemma_replace_free("\n       "@, t3, pat, rep);
    lemma_replace_mismatch("%*"@, t2, pat, rep, 1);
    lemma_replace_free("\" "@, t1, pat, rep);
    assert("\" %*\n                ) ELSE "@ + s =~= t0);
    assert(t5 == s);
}

/// A piece of the script template is kept by the replacement.
#[verifier::spinoff_prover]
proof fn lemma_keep_piece_5(s: Seq<char>, rep: Seq<char>)
    ensures
        replace_all("(\n                    @SETLOCAL\n        "@ + s, "%~dp0\\.."@, rep) == "(\n                    @SETLOCAL\n        "@ + replace_all(s, "%~dp0\\.."@, rep),
{
    let pat = "%~dp0\\.."@;
    reveal_strlit("(\n                    @SETLOCAL\n        ");
    reveal_strlit("(\n      ");
    reveal_strlit("        ");
    reveal_strlit("      @S");
    reveal_strlit("ETLOCAL\n");
    reveal_strlit("        ");
    assert("(\n                    @SETLOCAL\n        "@ =~= "(\n      "@ + "        "@ + "      @S"@ + "ETLOCAL\n"@ + "        "@);
    let t5 = s;
    let t4 = "        "@ + t5;
    let t3 = "ETLOCAL\n"@ + t4;
    let t2 = "      @S"@ + t3;
    let t1 = "        "@ + t2;
    let t0 = "(\n      "@ + t1;
    lemma_template_pieces();
    lemma_replace_free("        "@, t5, pat, rep);
    lemma_replace_free("ETLOCAL\n"@, t4, pat, rep);
    lemma_replace_free("      @S"@, t3, pat, rep);
    lemma_replace_free("        "@, t2, pat, rep);
    lemma_replace_free("(\n      "@, t1, pat, rep);
    assert("(\n                    @SETLOCAL\n        "@ + s =~= t0);
    assert(t5 == s);
}

/// A piece of the script template is kept by the replacement.
#[verifier::spinoff_prover]
proof fn lemma_keep_piece_6(s: Seq<char>, rep: Seq<char>)
    ensures
        replace_all("            @SET PATHEXT=%P"@ + s, "%~dp0\\.."@, rep) == "            @SET PATHEXT=%P"@ + replace_all(s, "%~dp0\\.."@, rep),
{
    let pat = "%~dp0\\.."@;
    reveal_strlit("            @SET PATHEXT=%P");
    reveal_strlit("        ");
    reveal_strlit("    @SET");
    reveal_strlit(" PATHEXT");
    reveal_strlit("=");
    reveal_strlit("%P");
    assert("            @SET PATHEXT=%P"@ =~= "        "@ + "    @SET"@ + " PATHEXT"@ + "="@ + "%P"@);
    let t5 = s;
    let t4 = "%P"@ + t5;
    let t3 = "="@ + t4;
    let t2 = " PATHEXT"@ + t3;
    let t1 = "    @SET"@ + t2;
    let t0 = "        "@ + t1;
    lemma_template_pieces();
    lemma_replace_mismatch("%P"@, t5, pat, rep, 1);
    lemma_replace_free("="@, t4, pat, rep);
    lemma_replace_free(" PATHEXT"@, t3, pat, rep);
    lemma_replace_free("    @SET"@, t2, pat, rep);
    lemma_replace_free("        "@, t1, pat, rep);
    assert("            @SET PATHEXT=%P"@ + s =~= t0);
    assert(t5 == s);
}

/// A piece of the script template is kept by the replacement.
#[verifier::spinoff_prover]
proof fn lemma_keep_piece_7(s: Seq<char>, rep: Seq<char>)
    ensures
        replace_all("ATHEXT:;.JS;=;%\n                "@ + s, "%~dp0\\.."@, rep) == "ATHEXT:;.JS;=;%\n                "@ + replace_all(s, "%~dp0\\.."@, rep),
{
    let pat = "%~dp0\\.."@;
    reveal_strlit("ATHEXT:;.JS;=;%\n                ");
    reveal_strlit("ATHEXT:;");
    reveal_strlit(".JS;=;");
    reveal_strlit("%\n");
    reveal_strlit("        ");
    reveal_strlit("        ");
    assert("ATHEXT:;.JS;=;%\n                "@ =~= "ATHEXT:;"@ + ".JS;=;"@ + "%\n"@ + "        "@ + "        "@);
    let t5 = s;
    let t4 = "        "@ + t5;
    let t3 = "        "@ + t4;
    let t2 = "%\n"@ + t3;
    let t1 = ".JS;=;"@ + t2;
    let t0 = "ATHEXT:;"@ + t1;
    lemma_template_pieces();
    lemma_replace_free("        "@, t5, pat, rep);
    lemma_replace_free("        "@, t4, pat, rep);
    lemma_replace_mismatch("%\n"@, t3, pat, rep, 1);
    lemma_replace_free(".JS;=;"@, t2, pat, rep);
    lemma_replace_free("ATHEXT:;"@, t1, pat, rep);
    assert("ATHEXT:;.JS;=;%\n                "@ + s =~= t0);
    assert(t5 == s);
}

/// A piece of the script template is kept by the replacement.
#[verifier::spinoff_prover]
proof fn lemma_keep_piece_8(s: Seq<char>, rep: Seq<char>)
    ensures
        replace_all("    node  \""@ + s, "%~dp0\\.."@, rep) == "    node  \""@ + replace_all(s, "%~dp0\\.."@, rep),
{
    let pat = "%~dp0\\.."@;
    reveal_strlit("    node  \"");
    reveal_strlit("    node");
    reveal_strlit("  \"");
    assert("    node  \""@ =~= "    node"@ + "  \""@);
    let t2 = s;
    let t1 = "  \""@ + t2;
    let t0 = "    node"@ + t1;
    lemma_template_pieces();
    lemma_replace_free("  \""@, t2, pat, rep);
    lemma_replace_free("    node"@, t1, pat, rep);
    assert("    node  \""@ + s =~= t0);
    assert(t2 == s);
}

/// The template text between the branches is kept.
#[verifier::spinoff_prover]
proof fn lemma_keep_else_part(s: Seq<char>, rep: Seq<char>)
    ensures
        replace_all("\" %*\n                ) ELSE (\n                    @SETLOCAL\n                    @SET PATHEXT=%PATHEXT:;.JS;=;%\n                    node  \""@ + s, "%~dp0\\.."@, rep) == "\" %*\n                ) ELSE (\n                    @SETLOCAL\n                    @SET PATHEXT=%PATHEXT:;.JS;=;%\n                    node  \""@ + replace_all(s, "%~dp0\\.."@, rep),
{
    let pat = "%~dp0\\.."@;
    reveal_strlit("\" %*\n                ) ELSE (\n                    @SETLOCAL\n                    @SET PATHEXT=%PATHEXT:;.JS;=;%\n                    node  \"");
    reveal_strlit("\" %*\n                ) ELSE ");
    reveal_strlit("(\n                    @SETLOCAL\n        ");
    reveal_strlit("            @SET PATHEXT=%P");
    reveal_strlit("ATHEXT:;.JS;=;%\n                ");
    reveal_strlit("    node  \"");
    assert("\" %*\n                ) ELSE (\n                    @SETLOCAL\n                    @SET PATHEXT=%PATHEXT:;.JS;=;%\n                    node  \""@ =~= "\" %*\n                ) ELSE "@ + "(\n                    @SETLOCAL\n        "@ + "            @SET PATHEXT=%P"@ + "ATHEXT:;.JS;=;%\n                "@ + "    node  \""@);
    let t5 = s;
    let t4 = "    node  \""@ + t5;
    let t3 = "ATHEXT:;.JS;=;%\n                "@ + t4;
    let t2 = "            @SET PATHEXT=%P"@ + t3;
    let t1 = "(\n                    @SETLOCAL\n        "@ + t2;
    let t0 = "\" %*\n                ) ELSE "@ + t1;
    lemma_template_pieces();
    lemma_keep_piece_8(t5, rep);
    lemma_keep_piece_7(t4, rep);
    lemma_keep_piece_6(t3, rep);
    lemma_keep_piece_5(t2, rep);
    lemma_keep_piece_4(t1, rep);
    assert("\" %*\n                ) ELSE (\n                    @SETLOCAL\n                    @SET PATHEXT=%PATHEXT:;.JS;=;%\n                    node  \""@ + s =~= t0);
    assert(t5 == s);
}

/// The template text after the last file is kept.
#[verifier::spinoff_prover]
proof fn lemma_keep_end(s: Seq<char>, rep: Seq<char>)
    ensures
        replace_all("\" %*\n                    )"@ + s, "%~dp0\\.."@, rep) == "\" %*\n                    )"@ + replace_all(s, "%~dp0\\.."@, rep),
{
    let pat = "%~dp0\\.."@;
    reveal_strlit("\" %*\n                    )");
    reveal_strlit("\" ");
    reveal_strlit("%*");
    reveal_strlit("\n       ");
    reveal_strlit("        ");
    reveal_strlit("     )");
    assert("\" %*\n                    )"@ =~= "\" "@ + "%*"@ + "\n       "@ + "        "@ + "     )"@);
    let t5 = s;
    let t4 = "     )"@ + t5;
    let t3 = "        "@ + t4;
    let t2 = "\n       "@ + t3;
    let t1 = "%*"@ + t2;
    let t0 = "\" "@ + t1;
    lemma_template_pieces();
    lemma_replace_free("     )"@, t5, pat, rep);
    lemma_replace_free("        "@, t4, pat, rep);
    lemma_replace_free("\n       "@, t3, pat, rep);
    lemma_replace_mismatch("%*"@, t2, pat, rep, 1);
    lemma_replace_free("\" "@, t1, pat, rep);
    assert("\" %*\n                    )"@ + s =~= t0);
    assert(t5 == s);
}

/// The part of the template from the branch for the node on the path on,
/// with the store path put in.
#[verifier::spinoff_prover]
proof fn lemma_else_branch(volt_dir: Seq<char>, name: Seq<char>, file: Seq<char>)
    requires
        free_of(name, '%'),
        free_of(file, '%'),
    ensures
        replace_all("\" %*\n                ) ELSE (\n                    @SETLOCAL\n                    @SET PATHEXT=%PATHEXT:;.JS;=;%\n                    node  \""@ + "%~dp0\\.."@ + "\\"@ + name + "\\"@ + file + "\" %*\n                    )"@, "%~dp0\\.."@, volt_dir) == "\" %*\n                ) ELSE (\n                    @SETLOCAL\n                    @SET PATHEXT=%PATHEXT:;.JS;=;%\n                    node  \""@ + volt_dir + "\\"@
            + name + "\\"@ + file + "\" %*\n                    )"@,
{
    lemma_template_pieces();
    let pat = "%~dp0\\.."@;
    let e = Seq::<char>::empty();
    let x6 = file + "\" %*\n                    )"@;
    let x5 = "\\"@ + x6;
    let x4 = name + x5;
    let x3 = "\\"@ + x4;
    assert(replace_all(e, pat, volt_dir) =~= e);
    lemma_keep_end(e, volt_dir);
    assert("\" %*\n                    )"@ + e =~= "\" %*\n                    )"@);
    lemma_replace_free(file, "\" %*\n                    )"@, pat, volt_dir);
    lemma_replace_free("\\"@, x6, pat, volt_dir);
    lemma_replace_free(name, x5, pat, volt_dir);
    lemma_replace_free("\\"@, x4, pat, volt_dir);
    lemma_replace_match(x3, pat, volt_dir);
    lemma_keep_else_part(pat + x3, volt_dir);
    assert("\" %*\n                ) ELSE (\n                    @SETLOCAL\n                    @SET PATHEXT=%PATHEXT:;.JS;=;%\n                    node  \""@ + "%~dp0\\.."@ + "\\"@ + name + "\\"@ + file + "\" %*\n                    )"@ =~= "\" %*\n                ) ELSE (\n                    @SETLOCAL\n                    @SET PATHEXT=%PATHEXT:;.JS;=;%\n                    node  \""@ + (pat + x3));
    assert("\" %*\n                ) ELSE (\n                    @SETLOCAL\n                    @SET PATHEXT=%PATHEXT:;.JS;=;%\n                    node  \""@ + (volt_dir + ("\\"@ + (name + ("\\"@ + (file + "\" %*\n                    )"@))))) =~= "\" %*\n                ) ELSE (\n                    @SETLOCAL\n                    @SET PATHEXT=%PATHEXT:;.JS;=;%\n                    node  \""@ + volt_dir + "\\"@ + name + "\\"@
        + file + "\" %*\n                    )"@);
}

/// The Windows command script, with the store path put in: when neither
/// the name nor the file holds `%`, each `%~dp0\..` of the template, and
/// only those, becomes `volt_dir`.
#[verifier::spinoff_prover]
pub proof fn lemma_windows_script_text(volt_dir: Seq<char>, name: Seq<char>, file: Seq<char>)
    requires
        forall|i: int| 0 <= i < name.len() ==> name[i] != '%',
        forall|i: int| 0 <= i < file.len() ==> file[i] != '%',
    ensures
        windows_script(volt_dir, name, file) == "\n            @IF EXIST \"%~dp0\\node.exe\" (\n                \"%~dp0\\node.exe\"  \""@ + volt_dir + "\\"@ + name + "\\"@ + file + "\" %*\n                ) ELSE (\n                    @SETLOCAL\n                    @SET PATHEXT=%PATHEXT:;.JS;=;%\n                    node  \""@
            + volt_dir + "\\"@ + name + "\\"@ + file + "\" %*\n                    )"@,
{
    lemma_template_pieces();
    lemma_template_shape();
    lemma_free_of(name, '%');
    lemma_free_of(file, '%');
    let pat = "%~dp0\\.."@;
    let rest = "\" %*\n                ) ELSE (\n                    @SETLOCAL\n                    @SET PATHEXT=%PATHEXT:;.JS;=;%\n                    node  \""@ + "%~dp0\\.."@ + "\\"@ + name + "\\"@ + file + "\" %*\n                    )"@;
    let done = "\" %*\n                ) ELSE (\n                    @SETLOCAL\n                    @SET PATHEXT=%PATHEXT:;.JS;=;%\n                    node  \""@ + volt_dir + "\\"@ + name + "\\"@ + file + "\" %*\n                    )"@;
    lemma_else_branch(volt_dir, name, file);
    let y4 = file + rest;
    let y3 = "\\"@ + y4;
    let y2 = name + y3;
    let y1 = "\\"@ + y2;
    assert(windows_template(name, file) =~= "\n            @IF EXIST \"%~dp0\\node.exe\" (\n                \"%~dp0\\node.exe\"  \""@ + (pat + y1));
    lemma_replace_free(file, rest, pat, volt_dir);
    lemma_replace_free("\\"@, y4, pat, volt_dir);
    lemma_replace_free(name, y3, pat, volt_dir);
    lemma_replace_free("\\"@, y2, pat, volt_dir);
    lemma_replace_match(y1, pat, volt_dir);
    lemma_keep_if_part(pat + y1, volt_dir);
    assert("\n            @IF EXIST \"%~dp0\\node.exe\" (\n                \"%~dp0\\node.exe\"  \""@ + (volt_dir + ("\\"@ + (name + ("\\"@ + (file + done))))) =~= "\n            @IF EXIST \"%~dp0\\node.exe\" (\n                \"%~dp0\\node.exe\"  \""@ + volt_dir + "\\"@ + name + "\\"@
        + file + "\" %*\n                ) ELSE (\n                    @SETLOCAL\n                    @SET PATHEXT=%PATHEXT:;.JS;=;%\n                    node  \""@ + volt_dir + "\\"@ + name + "\\"@ + file + "\" %*\n                    )"@);
}

/// Both branches of the Windows command script run the same file of the
/// store: the script holds `volt_dir\name\file" %*` twice, once for the
/// node beside the script and once for the node on the path. (A name or a
/// file that holds `%` could itself be rewritten by the replacement.)
pub proof fn lemma_windows_script_runs_binary_twice(volt_dir: Seq<char>, name: Seq<char>, file: Seq<char>)
    requires
        forall|i: int| 0 <= i < name.len() ==> name[i] != '%',
        forall|i: int| 0 <= i < file.len() ==> file[i] != '%',
    ensures
        ({
            let t = volt_dir + "\\"@ + name + "\\"@ + file + "\" %*"@;
            let sc = windows_script(volt_dir, name, file);
            exists|i: int, j: int| i < j && occurs_at(sc, t, i) && occurs_at(sc, t, j)
        }),
{
    lemma_windows_script_text(volt_dir, name, file);
    let first = volt_dir + "\\"@ + name + "\\"@ + file;
    let sc = windows_script(volt_dir, name, file);
    reveal_strlit("\" %*\n                ) ELSE (\n                    @SETLOCAL\n                    @SET PATHEXT=%PATHEXT:;.JS;=;%\n                    node  \"");
    reveal_strlit("\" %*\n                    )");
    reveal_strlit("\" %*");
    let t = first + "\" %*"@;
    assert("\" %*\n                ) ELSE (\n                    @SETLOCAL\n                    @SET PATHEXT=%PATHEXT:;.JS;=;%\n                    node  \""@.subrange(0, 4) =~= "\" %*"@);
    assert("\" %*\n                    )"@.subrange(0, 4) =~= "\" %*"@);
    assert(sc =~= "\n            @IF EXIST \"%~dp0\\node.exe\" (\n                \"%~dp0\\node.exe\"  \""@ + first + "\" %*\n                ) ELSE (\n                    @SETLOCAL\n                    @SET PATHEXT=%PATHEXT:;.JS;=;%\n                    node  \""@ + first + "\" %*\n                    )"@);
    let i = "\n            @IF EXIST \"%~dp0\\node.exe\" (\n                \"%~dp0\\node.exe\"  \""@.len() as int;
    let j = i + first.len() + "\" %*\n                ) ELSE (\n                    @SETLOCAL\n                    @SET PATHEXT=%PATHEXT:;.JS;=;%\n                    node  \""@.len();
    assert(sc.subrange(i, i + t.len()) =~= t);
    assert(sc.subrange(j, j + t.len()) =~= t);
    assert(occurs_at(sc, t, i) && occurs_at(sc, t, j));
}

} // verus!
